use vstd::prelude::*;

verus! {

/// Characters that separate tokens and make a line blank.
pub open spec fn is_space(c: char) -> bool {
    c == ' ' || c == '\t' || c == '\r'
}

/// A line that holds only spacing characters (or nothing).
pub open spec fn is_blank(l: Seq<char>) -> bool {
    forall|i: int| 0 <= i < l.len() ==> is_space(#[trigger] l[i])
}

/// The views of a sequence of strings.
pub open spec fn views(v: Seq<String>) -> Seq<Seq<char>> {
    v.map_values(|x: String| x@)
}

/// The lines of a text, split at each newline; a text without newline is one line.
pub open spec fn lines_of(s: Seq<char>) -> Seq<Seq<char>>
    decreases s.len(),
{
    if s.len() == 0 {
        seq![Seq::empty()]
    } else {
        let prev = lines_of(s.drop_last());
        if s.last() == '\n' {
            prev.push(Seq::empty())
        } else {
            prev.update(prev.len() - 1, prev.last().push(s.last()))
        }
    }
}

pub proof fn lemma_lines_nonempty(s: Seq<char>)
    ensures
        lines_of(s).len() >= 1,
    decreases s.len(),
{
    if s.len() > 0 {
        lemma_lines_nonempty(s.drop_last());
    }
}

/// The blocks of a sequence of lines: maximal runs of non-blank lines.
pub open spec fn blocks_of(ls: Seq<Seq<char>>) -> Seq<Seq<Seq<char>>>
    decreases ls.len(),
{
    if ls.len() == 0 {
        seq![]
    } else {
        let prev = blocks_of(ls.drop_last());
        let l = ls.last();
        if is_blank(l) {
            prev
        } else if ls.len() >= 2 && !is_blank(ls[ls.len() - 2]) {
            prev.update(prev.len() - 1, prev.last().push(l))
        } else {
            prev.push(seq![l])
        }
    }
}

pub proof fn lemma_blocks_shape(ls: Seq<Seq<char>>)
    ensures
        ls.len() > 0 && !is_blank(ls.last()) ==> blocks_of(ls).len() >= 1,
        forall|i: int|
            0 <= i < blocks_of(ls).len() ==> (#[trigger] blocks_of(ls)[i]).len() >= 1 && !is_blank(
                blocks_of(ls)[i][0],
            ),
    decreases ls.len(),
{
    if ls.len() > 0 {
        lemma_blocks_shape(ls.drop_last());
        let prev = blocks_of(ls.drop_last());
        if !is_blank(ls.last()) && ls.len() >= 2 && !is_blank(ls[ls.len() - 2]) {
            assert(ls.drop_last().last() == ls[ls.len() - 2]);
            assert(prev.len() >= 1);
        }
    }
}

/// Splits a text into its lines.
pub fn split_lines(s: &str) -> (r: Vec<String>)
    ensures
        views(r@) == lines_of(s@),
{
    let n = s.unicode_len();
    let mut done: Vec<String> = Vec::new();
    let mut start: usize = 0;
    let mut i: usize = 0;
    assert(s@.take(0) =~= Seq::<char>::empty());
    while i < n
        invariant
            n == s@.len(),
            start <= i <= n,
            views(done@).push(s@.subrange(start as int, i as int)) == lines_of(s@.take(i as int)),
        decreases n - i,
    {
        let c = s.get_char(i);
        proof {
            assert(s@.take(i + 1).drop_last() =~= s@.take(i as int));
            assert(s@.take(i + 1).last() == c);
        }
        if c == '\n' {
            let line = String::from_str(s.substring_char(start, i));
            proof {
                assert(views(done@.push(line)) =~= views(done@).push(line@));
                assert(s@.subrange(i + 1, i + 1) =~= Seq::<char>::empty());
            }
            done.push(line);
            start = i + 1;
        } else {
            proof {
                let prev = views(done@).push(s@.subrange(start as int, i as int));
                assert(s@.subrange(start as int, i + 1) =~= s@.subrange(start as int, i as int).push(c));
                assert(prev.update(prev.len() - 1, prev.last().push(c)) =~= views(done@).push(
                    s@.subrange(start as int, i + 1),
                ));
            }
        }
        i += 1;
    }
    let line = String::from_str(s.substring_char(start, n));
    proof {
        assert(s@.take(n as int) =~= s@);
        assert(views(done@.push(line)) =~= views(done@).push(line@));
    }
    done.push(line);
    done
}

/// Whether a line holds only spacing characters.
pub fn blank_line(l: &str) -> (r: bool)
    ensures
        r == is_blank(l@),
{
    let n = l.unicode_len();
    let mut i: usize = 0;
    while i < n
        invariant
            n == l@.len(),
            i <= n,
            forall|j: int| 0 <= j < i ==> is_space(#[trigger] l@[j]),
        decreases n - i,
    {
        let c = l.get_char(i);
        if !(c == ' ' || c == '\t' || c == '\r') {
            return false;
        }
        i += 1;
    }
    true
}

/// The views of a sequence of blocks.
pub open spec fn block_views(v: Seq<Vec<String>>) -> Seq<Seq<Seq<char>>> {
    v.map_values(|b: Vec<String>| views(b@))
}

/// Groups lines into blocks: maximal runs of non-blank lines.
pub fn group_blocks(ls: &Vec<String>) -> (r: Vec<Vec<String>>)
    ensures
        block_views(r@) == blocks_of(views(ls@)),
{
    let n = ls.len();
    let mut done: Vec<Vec<String>> = Vec::new();
    let mut cur: Vec<String> = Vec::new();
    let mut i: usize = 0;
    assert(views(ls@).take(0) =~= Seq::<Seq<char>>::empty());
    while i < n
        invariant
            n == ls@.len(),
            i <= n,
            cur@.len() == 0 ==> block_views(done@) == blocks_of(views(ls@).take(i as int)),
            cur@.len() > 0 ==> block_views(done@).push(views(cur@)) == blocks_of(
                views(ls@).take(i as int),
            ),
            cur@.len() > 0 <==> (i > 0 && !is_blank(ls@[i - 1]@)),
        decreases n - i,
    {
        let line = ls[i].clone();
        let ghost lv = views(ls@);
        proof {
            assert(lv.take(i + 1).drop_last() =~= lv.take(i as int));
            assert(lv.take(i + 1).last() == ls@[i as int]@);
            if i > 0 {
                assert(lv.take(i + 1)[i - 1] == ls@[i - 1]@);
            }
        }
        if blank_line(line.as_str()) {
            if cur.len() > 0 {
                proof {
                    assert(block_views(done@.push(cur)) =~= block_views(done@).push(views(cur@)));
                }
                done.push(cur);
                cur = Vec::new();
            }
        } else {
            proof {
                assert(views(cur@.push(line)) =~= views(cur@).push(line@));
                if cur@.len() > 0 {
                    let prev = block_views(done@).push(views(cur@));
                    assert(prev.update(prev.len() - 1, prev.last().push(line@)) =~= block_views(
                        done@,
                    ).push(views(cur@.push(line))));
                } else {
                    assert(cur@.push(line) =~= seq![line]);
                    assert(views(seq![line]) =~= seq![line@]);
                    assert(block_views(done@).push(views(cur@.push(line))) =~= block_views(
                        done@,
                    ).push(seq![line@]));
                }
            }
            cur.push(line);
        }
        i += 1;
    }
    proof {
        assert(views(ls@).take(n as int) =~= views(ls@));
    }
    if cur.len() > 0 {
        proof {
            assert(block_views(done@.push(cur)) =~= block_views(done@).push(views(cur@)));
        }
        done.push(cur);
    }
    done
}

} // verus!
