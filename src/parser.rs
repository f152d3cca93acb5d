use vstd::prelude::*;
use crate::error::ErrorKind;
use crate::grammar::{
    block_views, blocks_of, group_blocks, is_blank, is_space, lemma_blocks_shape, lines_of,
    split_lines, views,
};
use crate::load_type::RuleLoadType;
use crate::pack::{
    entry_views, first_duplicate, ids_unique, pair_views, EntryView, PackView, RuleEntry, RulePack,
};
use crate::source::{RawContent, RawRuleSource};

verus! {

/// The position of the first character of `l` that satisfies `p`, or the length of `l`.
pub open spec fn first_where(l: Seq<char>, p: spec_fn(char) -> bool) -> nat
    decreases l.len(),
{
    if l.len() == 0 {
        0
    } else if p(l[0]) {
        0
    } else {
        1 + first_where(l.skip(1), p)
    }
}

pub proof fn lemma_first_where(l: Seq<char>, p: spec_fn(char) -> bool)
    ensures
        first_where(l, p) <= l.len(),
        forall|j: int| 0 <= j < first_where(l, p) ==> !p(#[trigger] l[j]),
        first_where(l, p) < l.len() ==> p(l[first_where(l, p) as int]),
    decreases l.len(),
{
    if l.len() > 0 && !p(l[0]) {
        lemma_first_where(l.skip(1), p);
        assert forall|j: int| 0 <= j < first_where(l, p) implies !p(#[trigger] l[j]) by {
            if j > 0 {
                assert(l[j] == l.skip(1)[j - 1]);
            }
        }
    }
}

/// Where the identifier on a block's first line ends: at the first spacing character.
pub open spec fn id_end(l: Seq<char>) -> nat {
    first_where(l, space_pred())
}

/// Spacing characters, as a predicate.
pub open spec fn space_pred() -> spec_fn(char) -> bool {
    |c: char| is_space(c)
}

/// The `=` character, as a predicate.
pub open spec fn eq_pred() -> spec_fn(char) -> bool {
    |c: char| c == '='
}

/// The position of the first `=` in a line, or its length.
pub open spec fn eq_pos(l: Seq<char>) -> nat {
    first_where(l, eq_pred())
}

/// A line of the form `key=value`.
pub open spec fn is_meta_line(l: Seq<char>) -> bool {
    eq_pos(l) < l.len()
}

/// The key and value of a `key=value` line, split at the first `=`.
pub open spec fn meta_of(l: Seq<char>) -> (Seq<char>, Seq<char>) {
    (l.take(eq_pos(l) as int), l.skip(eq_pos(l) as int + 1))
}

/// A block has no extractable identifier when its first line starts with
/// a spacing character or its first token holds an `=`.
pub open spec fn block_malformed(b: Seq<Seq<char>>) -> bool {
    id_end(b[0]) == 0 || eq_pos(b[0]) < id_end(b[0])
}

/// The identifier of a block: the first token of its first line.
pub open spec fn block_id(b: Seq<Seq<char>>) -> Seq<char> {
    b[0].take(id_end(b[0]) as int)
}

/// The pattern of a block: what follows the identifier on the first line, then
/// each later line that is not `key=value`, each after a newline.
pub open spec fn block_pattern(b: Seq<Seq<char>>) -> Seq<char>
    decreases b.len(),
{
    if b.len() <= 1 {
        if id_end(b[0]) < b[0].len() {
            b[0].skip(id_end(b[0]) as int + 1)
        } else {
            Seq::empty()
        }
    } else if is_meta_line(b.last()) {
        block_pattern(b.drop_last())
    } else {
        block_pattern(b.drop_last()) + seq!['\n'] + b.last()
    }
}

/// The metadata of a block: its later `key=value` lines, in order.
pub open spec fn block_metadata(b: Seq<Seq<char>>) -> Seq<(Seq<char>, Seq<char>)>
    decreases b.len(),
{
    if b.len() <= 1 {
        seq![]
    } else if is_meta_line(b.last()) {
        block_metadata(b.drop_last()).push(meta_of(b.last()))
    } else {
        block_metadata(b.drop_last())
    }
}

/// The entry that a well-formed block describes.
pub open spec fn entry_of(b: Seq<Seq<char>>) -> EntryView {
    EntryView { id: block_id(b), pattern: block_pattern(b), metadata: block_metadata(b) }
}

/// The entries that a sequence of well-formed blocks describes.
pub open spec fn entries_of(bs: Seq<Seq<Seq<char>>>) -> Seq<EntryView> {
    bs.map_values(|b: Seq<Seq<char>>| entry_of(b))
}

/// The entries of a text, or why it is not a valid rule pack: a malformed block
/// comes first, then a repeated identifier.
pub open spec fn parse_text_spec(s: Seq<char>) -> Result<Seq<EntryView>, ErrorKind> {
    let bs = blocks_of(lines_of(s));
    if exists|i: int| 0 <= i < bs.len() && block_malformed(#[trigger] bs[i]) {
        Err(ErrorKind::MalformedRule)
    } else if !ids_unique(entries_of(bs)) {
        Err(ErrorKind::DuplicateRuleId)
    } else {
        Ok(entries_of(bs))
    }
}

/// Whether a character is a spacing character.
pub fn space_char(c: char) -> (r: bool)
    ensures
        r == is_space(c),
{
    c == ' ' || c == '\t' || c == '\r'
}

/// The position of the first spacing character of a line, or its length.
fn find_space(l: &str) -> (r: usize)
    ensures
        r == id_end(l@),
{
    let n = l.unicode_len();
    let mut i: usize = 0;
    while i < n && !space_char(l.get_char(i))
        invariant
            n == l@.len(),
            i <= n,
            forall|j: int| 0 <= j < i ==> !is_space(#[trigger] l@[j]),
        decreases n - i,
    {
        i += 1;
    }
    proof {
        lemma_first_where(l@, space_pred());
        let k = id_end(l@);
        if k < i {
            assert(!is_space(l@[k as int]));
        }
        if i < k {
            assert(!space_pred()(l@[i as int]));
        }
    }
    i
}

/// The position of the first `=` of a line, or its length.
fn find_eq(l: &str) -> (r: usize)
    ensures
        r == eq_pos(l@),
{
    let n = l.unicode_len();
    let mut i: usize = 0;
    while i < n && l.get_char(i) != '='
        invariant
            n == l@.len(),
            i <= n,
            forall|j: int| 0 <= j < i ==> l@[j] != '=',
        decreases n - i,
    {
        i += 1;
    }
    proof {
        lemma_first_where(l@, eq_pred());
        let k = eq_pos(l@);
        if k < i {
            assert(l@[k as int] != '=');
        }
        if i < k {
            assert(!eq_pred()(l@[i as int]));
        }
    }
    i
}

/// Reads the entry of one block of lines.
pub fn build_entry(block: &Vec<String>) -> (r: Result<RuleEntry, ErrorKind>)
    requires
        block@.len() >= 1,
    ensures
        block_malformed(views(block@)) ==> r == Err::<RuleEntry, ErrorKind>(ErrorKind::MalformedRule),
        !block_malformed(views(block@)) ==> (r matches Ok(e) && e@ == entry_of(views(block@))),
{
    let ghost b = views(block@);
    let first = block[0].as_str();
    let k = find_space(first);
    let e = find_eq(first);
    if k == 0 || e < k {
        return Err(ErrorKind::MalformedRule);
    }
    let n = first.unicode_len();
    proof {
        lemma_first_where(first@, space_pred());
    }
    let id = String::from_str(first.substring_char(0, k));
    let mut pattern = if k < n {
        String::from_str(first.substring_char(k + 1, n))
    } else {
        String::new()
    };
    let mut metadata: Vec<(String, String)> = Vec::new();
    proof {
        assert(b.take(1)[0] == b[0]);
        assert(pair_views(metadata@) =~= Seq::<(Seq<char>, Seq<char>)>::empty());
    }
    let mut i: usize = 1;
    while i < block.len()
        invariant
            1 <= i <= block@.len(),
            b == views(block@),
            pattern@ == block_pattern(b.take(i as int)),
            pair_views(metadata@) == block_metadata(b.take(i as int)),
        decreases block@.len() - i,
    {
        let line = block[i].as_str();
        let q = find_eq(line);
        let len = line.unicode_len();
        proof {
            assert(b.take(i + 1).drop_last() =~= b.take(i as int));
            assert(b.take(i + 1).last() == b[i as int]);
            lemma_first_where(line@, eq_pred());
        }
        if q < len {
            let key = String::from_str(line.substring_char(0, q));
            let value = String::from_str(line.substring_char(q + 1, len));
            proof {
                assert(pair_views(metadata@.push((key, value))) =~= pair_views(metadata@).push(
                    (key@, value@),
                ));
            }
            metadata.push((key, value));
        } else {
            proof {
                reveal_strlit("\n");
            }
            pattern.append("\n");
            pattern.append(line);
        }
        i += 1;
    }
    proof {
        assert(b.take(block@.len() as int) =~= b);
    }
    Ok(RuleEntry { id, pattern, metadata })
}

/// What a parse of text gives, seen as entry views.
pub open spec fn parsed_view(r: Result<Vec<RuleEntry>, ErrorKind>) -> Result<Seq<EntryView>, ErrorKind> {
    match r {
        Ok(v) => Ok(entry_views(v@)),
        Err(k) => Err(k),
    }
}

/// Parses rule text: blank-line-delimited blocks, each an identifier with an
/// optional pattern on its first line, further pattern lines and `key=value` metadata.
pub fn parse_text(s: &str) -> (r: Result<Vec<RuleEntry>, ErrorKind>)
    ensures
        parsed_view(r) == parse_text_spec(s@),
{
    let lines = split_lines(s);
    let blocks = group_blocks(&lines);
    let ghost bs = block_views(blocks@);
    proof {
        lemma_blocks_shape(lines_of(s@));
    }
    let mut entries: Vec<RuleEntry> = Vec::new();
    let mut i: usize = 0;
    while i < blocks.len()
        invariant
            bs == block_views(blocks@),
            bs == blocks_of(lines_of(s@)),
            i <= blocks@.len(),
            forall|j: int| 0 <= j < bs.len() ==> (#[trigger] bs[j]).len() >= 1,
            forall|j: int| 0 <= j < i ==> !block_malformed(#[trigger] bs[j]),
            entry_views(entries@) == entries_of(bs.take(i as int)),
        decreases blocks@.len() - i,
    {
        assert(bs[i as int] == views(blocks@[i as int]@));
        match build_entry(&blocks[i]) {
            Err(k) => {
                assert(block_malformed(bs[i as int]));
                return Err(k);
            },
            Ok(e) => {
                proof {
                    assert(e@ == entry_of(bs[i as int]));
                    let ev = entry_views(entries@.push(e));
                    let want = entries_of(bs.take(i + 1));
                    assert(entry_views(entries@).len() == entries@.len());
                    assert(entries_of(bs.take(i as int)).len() == i);
                    assert(ev.len() == want.len());
                    assert forall|k: int| 0 <= k < ev.len() implies ev[k] == want[k] by {
                        if k < i {
                            assert(entries@.push(e)[k] == entries@[k]);
                            assert(ev[k] == entry_views(entries@)[k]);
                            assert(entries_of(bs.take(i as int))[k] == entry_of(bs[k]));
                        }
                    }
                    assert(ev =~= want);
                }
                entries.push(e);
            },
        }
        i += 1;
    }
    proof {
        assert(bs.take(bs.len() as int) =~= bs);
        assert(!exists|j: int| 0 <= j < bs.len() && block_malformed(#[trigger] bs[j]));
    }
    if first_duplicate(&entries).is_some() {
        Err(ErrorKind::DuplicateRuleId)
    } else {
        Ok(entries)
    }
}

/// The pack that rule text gives, with its provenance, or why it gives none.
pub open spec fn text_pack_spec(
    identifier: Seq<char>,
    load_type: RuleLoadType,
    loaded_at: u64,
    t: Seq<char>,
) -> Result<PackView, ErrorKind> {
    match parse_text_spec(t) {
        Ok(es) => Ok(PackView { source: identifier, load_type, loaded_at, entries: es }),
        Err(e) => Err(e),
    }
}

/// What a parse of a raw source gives, seen as a pack view.
pub open spec fn pack_outcome(r: Result<RulePack, ErrorKind>) -> Result<PackView, ErrorKind> {
    match r {
        Ok(p) => Ok(p@),
        Err(e) => Err(e),
    }
}

/// Turns raw content into a rule pack. Structured content is passed through unchanged.
pub fn parse(raw: RawRuleSource) -> (r: Result<RulePack, ErrorKind>)
    ensures
        raw.content matches RawContent::Structured(p) ==> r == Ok::<RulePack, ErrorKind>(p),
        raw.content matches RawContent::Text(t) ==> pack_outcome(r) == text_pack_spec(
            raw.identifier@,
            raw.load_type,
            raw.loaded_at,
            t@,
        ),
        raw.content is Text ==> (r matches Ok(p) ==> p.wf()),
{
    match raw.content {
        RawContent::Structured(p) => Ok(p),
        RawContent::Text(t) => match parse_text(t.as_str()) {
            Ok(entries) => Ok(
                RulePack {
                    source: raw.identifier,
                    load_type: raw.load_type,
                    loaded_at: raw.loaded_at,
                    entries,
                },
            ),
            Err(e) => Err(e),
        },
    }
}

/// Text without blocks gives a pack with no entries.
pub proof fn lemma_empty_text_no_entries(identifier: Seq<char>, load_type: RuleLoadType, loaded_at: u64)
    ensures
        text_pack_spec(identifier, load_type, loaded_at, Seq::empty()) == Ok::<PackView, ErrorKind>(
            PackView { source: identifier, load_type, loaded_at, entries: Seq::empty() },
        ),
{
    assert(lines_of(Seq::<char>::empty()) == seq![Seq::<char>::empty()]);
    let ls = lines_of(Seq::<char>::empty());
    assert(ls.drop_last() =~= Seq::<Seq<char>>::empty());
    assert(is_blank(ls.last()));
    assert(blocks_of(ls) == blocks_of(ls.drop_last()));
    assert(blocks_of(ls) =~= Seq::<Seq<Seq<char>>>::empty());
    assert(entries_of(blocks_of(ls)) =~= Seq::<EntryView>::empty());
}

/// A pack parsed from text never has two entries with one identifier.
pub proof fn lemma_parsed_ids_unique(t: Seq<char>)
    ensures
        parse_text_spec(t) matches Ok(es) ==> ids_unique(es),
{
}

} // verus!
