use vstd::prelude::*;
use crate::error::ErrorKind;
use crate::grammar::is_space;
use crate::number::{decimal, decimal_text};
use crate::pack::{entry_views, EntryView, PackView, RuleEntry, RulePack};
use crate::text::text_eq;

verus! {

/// What processing produces from a pack.
#[derive(Clone, Copy, Debug, PartialEq, Eq, Structural)]
pub enum ProcessMode {
    /// A textual description of the pack.
    Summarize,
    /// The pack with every pattern in canonical form.
    Normalize,
}

/// The mode whose tag is `tag`, if there is one.
pub open spec fn mode_of(tag: Seq<char>) -> Option<ProcessMode> {
    if tag == "summarize"@ {
        Some(ProcessMode::Summarize)
    } else if tag == "normalize"@ {
        Some(ProcessMode::Normalize)
    } else {
        None
    }
}

impl ProcessMode {
    /// Reads a mode from its tag: `summarize` or `normalize`.
    pub fn parse(tag: &str) -> (r: Result<ProcessMode, ErrorKind>)
        ensures
            mode_of(tag@) matches Some(m) ==> r == Ok::<ProcessMode, ErrorKind>(m),
            mode_of(tag@) is None ==> r == Err::<ProcessMode, ErrorKind>(ErrorKind::InvalidMode),
    {
        if text_eq(tag, "summarize") {
            Ok(ProcessMode::Summarize)
        } else if text_eq(tag, "normalize") {
            Ok(ProcessMode::Normalize)
        } else {
            Err(ErrorKind::InvalidMode)
        }
    }
}

/// The outcome of processing a pack.
pub enum ProcessedResult {
    Summary(String),
    Normalized(RulePack),
}

/// The separator written before an entry identifier in a summary.
pub open spec fn id_separator(i: int) -> Seq<char> {
    if i == 0 {
        ": "@
    } else {
        ", "@
    }
}

/// The list of entry identifiers at the end of a summary.
pub open spec fn ids_part(es: Seq<EntryView>) -> Seq<char>
    decreases es.len(),
{
    if es.len() == 0 {
        Seq::empty()
    } else {
        ids_part(es.drop_last()) + id_separator(es.len() - 1) + es.last().id
    }
}

/// The part of a summary before the list of identifiers.
pub open spec fn summary_head(p: PackView) -> Seq<char> {
    "Processed rule pack: "@ + p.source + " ("@ + decimal(p.entries.len()) + " entries)"@
}

/// The summary of a pack: its source, its entry count, and its entry identifiers in order.
pub open spec fn summary_text(p: PackView) -> Seq<char> {
    summary_head(p) + ids_part(p.entries)
}

/// Writes the summary of a pack.
pub fn summarize(pack: &RulePack) -> (r: String)
    ensures
        r@ == summary_text(pack@),
{
    let mut out = String::from_str("Processed rule pack: ");
    out.append(pack.source.as_str());
    out.append(" (");
    let count = decimal_text(pack.entries.len());
    out.append(count.as_str());
    out.append(" entries)");
    let ghost es = pack@.entries;
    let ghost head = out@;
    assert(head == summary_head(pack@));
    let mut i: usize = 0;
    assert(ids_part(es.take(0)) == Seq::<char>::empty());
    while i < pack.entries.len()
        invariant
            es == entry_views(pack.entries@),
            i <= pack.entries@.len(),
            out@ == head + ids_part(es.take(i as int)),
        decreases pack.entries@.len() - i,
    {
        proof {
            assert(es.take(i + 1).drop_last() =~= es.take(i as int));
            assert(es.take(i + 1).last() == pack.entries@[i as int]@);
        }
        if i == 0 {
            out.append(": ");
        } else {
            out.append(", ");
        }
        out.append(pack.entries[i].id.as_str());
        proof {
            assert(out@ =~= head + ids_part(es.take(i + 1)));
        }
        i += 1;
    }
    proof {
        assert(es.take(es.len() as int) =~= es);
    }
    out
}

/// Where the `i`-th entry identifier stands in a pack's summary.
pub open spec fn id_offset(p: PackView, i: int) -> int {
    summary_head(p).len() + ids_part(p.entries.take(i)).len() + 2int
}

proof fn lemma_separator_len(i: int)
    ensures
        id_separator(i).len() == 2,
{
    reveal_strlit(": ");
    reveal_strlit(", ");
}

proof fn lemma_ids_part_prefix(es: Seq<EntryView>, k: int)
    requires
        0 <= k <= es.len(),
    ensures
        ids_part(es.take(k)).len() <= ids_part(es).len(),
        ids_part(es).subrange(0, ids_part(es.take(k)).len() as int) == ids_part(es.take(k)),
    decreases es.len(),
{
    if k == es.len() {
        assert(es.take(k) =~= es);
    } else {
        lemma_ids_part_prefix(es.drop_last(), k);
        assert(es.drop_last().take(k) =~= es.take(k));
        let a = ids_part(es.drop_last());
        let b = ids_part(es.take(k));
        assert(ids_part(es).subrange(0, b.len() as int) =~= a.subrange(0, b.len() as int));
    }
}

proof fn lemma_ids_part_step(es: Seq<EntryView>, i: int)
    requires
        0 <= i < es.len(),
    ensures
        ids_part(es.take(i + 1)) == ids_part(es.take(i)) + id_separator(i) + es[i].id,
{
    assert(es.take(i + 1).drop_last() =~= es.take(i));
}

/// A summary depends on nothing but the pack: two packs with the same view get
/// the same summary. It names the pack's source right after its opening words,
/// and every entry identifier, each after the previous one, in declaration order.
pub proof fn lemma_summary_names_source_and_ids(p: PackView, q: PackView)
    requires
        p == q,
    ensures
        summary_text(p) == summary_text(q),
        summary_text(p).subrange(21, 21 + p.source.len() as int) == p.source,
        forall|i: int|
            0 <= i < p.entries.len() ==> summary_text(p).subrange(
                id_offset(p, i),
                id_offset(p, i) + p.entries[i].id.len(),
            ) == (#[trigger] p.entries[i]).id,
        forall|i: int, j: int|
            0 <= i < j < p.entries.len() ==> id_offset(p, i) + p.entries[i].id.len() < id_offset(
                p,
                j,
            ),
{
    reveal_strlit("Processed rule pack: ");
    let s = summary_text(p);
    let head = summary_head(p);
    let es = p.entries;
    assert(s.subrange(21, 21 + p.source.len() as int) =~= p.source);
    assert forall|i: int| 0 <= i < es.len() implies s.subrange(
        id_offset(p, i),
        id_offset(p, i) + es[i].id.len(),
    ) == (#[trigger] es[i]).id by {
        lemma_ids_part_step(es, i);
        lemma_separator_len(i);
        lemma_ids_part_prefix(es, i + 1);
        let pre = ids_part(es.take(i + 1));
        let at: int = ids_part(es.take(i)).len() + 2int;
        assert(pre.subrange(at, at + es[i].id.len() as int) =~= es[i].id);
        assert(s.subrange(id_offset(p, i), id_offset(p, i) + es[i].id.len()) =~= pre.subrange(
            at,
            at + es[i].id.len() as int,
        ));
    }
    assert forall|i: int, j: int| 0 <= i < j < es.len() implies id_offset(p, i) + es[i].id.len()
        < id_offset(p, j) by {
        lemma_ids_part_step(es, i);
        lemma_separator_len(i);
        lemma_ids_part_prefix(es.take(j), i + 1);
        assert(es.take(j).take(i + 1) =~= es.take(i + 1));
    }
}

/// The lowercase ASCII letters, in order.
pub open spec fn lower_letters() -> Seq<char> {
    seq![
        'a', 'b', 'c', 'd', 'e', 'f', 'g', 'h', 'i', 'j', 'k', 'l', 'm',
        'n', 'o', 'p', 'q', 'r', 's', 't', 'u', 'v', 'w', 'x', 'y', 'z',
    ]
}

/// An uppercase ASCII letter.
pub open spec fn is_upper(c: char) -> bool {
    65 <= (c as u32) <= 90
}

/// The case policy of canonical patterns: ASCII uppercase letters become
/// lowercase, every other character stays.
pub open spec fn fold_case(c: char) -> char {
    if is_upper(c) {
        lower_letters()[(c as u32) - 65]
    } else {
        c
    }
}

/// Characters that separate words of a pattern.
pub open spec fn is_gap(c: char) -> bool {
    is_space(c) || c == '\n'
}

/// A pattern read so far in canonical form, and whether a gap is pending
/// after a word.
pub open spec fn canon_state(s: Seq<char>) -> (Seq<char>, bool)
    decreases s.len(),
{
    if s.len() == 0 {
        (Seq::empty(), false)
    } else {
        let (out, pending) = canon_state(s.drop_last());
        let c = s.last();
        if is_gap(c) {
            (out, out.len() > 0)
        } else if pending {
            (out.push(' ').push(fold_case(c)), false)
        } else {
            (out.push(fold_case(c)), false)
        }
    }
}

/// The canonical form of a pattern: its words in case-folded form, separated
/// by single spaces, with no gap at either end.
pub open spec fn canonical(s: Seq<char>) -> Seq<char> {
    canon_state(s).0
}

/// Writes a pattern in canonical form.
pub fn canonical_pattern(p: &str) -> (r: String)
    ensures
        r@ == canonical(p@),
{
    let lower = "abcdefghijklmnopqrstuvwxyz";
    proof {
        reveal_strlit("abcdefghijklmnopqrstuvwxyz");
        reveal_strlit(" ");
        assert(lower@ =~= lower_letters());
    }
    let n = p.unicode_len();
    let mut out = String::new();
    let mut pending = false;
    let mut i: usize = 0;
    assert(p@.take(0) =~= Seq::<char>::empty());
    while i < n
        invariant
            n == p@.len(),
            i <= n,
            lower@ == lower_letters(),
            (out@, pending) == canon_state(p@.take(i as int)),
        decreases n - i,
    {
        let c = p.get_char(i);
        proof {
            assert(p@.take(i + 1).drop_last() =~= p@.take(i as int));
            assert(p@.take(i + 1).last() == c);
        }
        let ghost prev = canon_state(p@.take(i as int));
        proof {
            assert(canon_state(p@.take(i + 1)) == (if is_gap(c) {
                (prev.0, prev.0.len() > 0)
            } else if prev.1 {
                (prev.0.push(' ').push(fold_case(c)), false)
            } else {
                (prev.0.push(fold_case(c)), false)
            }));
        }
        if c == ' ' || c == '\t' || c == '\r' || c == '\n' {
            pending = out.unicode_len() > 0;
        } else {
            let ghost before = out@;
            if pending {
                proof {
                    reveal_strlit(" ");
                }
                out.append(" ");
            }
            let u = c as u32;
            if 65 <= u && u <= 90 {
                let k = (u - 65) as usize;
                let piece = lower.substring_char(k, k + 1);
                assert(piece@ =~= seq![fold_case(c)]);
                out.append(piece);
            } else {
                let piece = p.substring_char(i, i + 1);
                assert(piece@ =~= seq![fold_case(c)]);
                out.append(piece);
            }
            proof {
                if prev.1 {
                    assert(out@ =~= before.push(' ').push(fold_case(c)));
                }
            }
            pending = false;
        }
        i += 1;
    }
    proof {
        assert(p@.take(n as int) =~= p@);
    }
    out
}

/// An entry with its pattern in canonical form.
pub open spec fn normalized_entry(e: EntryView) -> EntryView {
    EntryView { id: e.id, pattern: canonical(e.pattern), metadata: e.metadata }
}

/// A pack with every pattern in canonical form.
pub open spec fn normalized(p: PackView) -> PackView {
    PackView {
        source: p.source,
        load_type: p.load_type,
        loaded_at: p.loaded_at,
        entries: p.entries.map_values(|e: EntryView| normalized_entry(e)),
    }
}

/// A new pack whose patterns are in canonical form; identifiers, metadata and
/// order stay.
pub fn normalize(pack: &RulePack) -> (r: RulePack)
    ensures
        r@ == normalized(pack@),
{
    let ghost want = normalized(pack@).entries;
    let mut entries: Vec<RuleEntry> = Vec::new();
    let mut i: usize = 0;
    while i < pack.entries.len()
        invariant
            i <= pack.entries@.len(),
            want == normalized(pack@).entries,
            entry_views(entries@) == want.take(i as int),
        decreases pack.entries@.len() - i,
    {
        let e = pack.entries[i].copy();
        let pattern = canonical_pattern(e.pattern.as_str());
        let ne = RuleEntry { id: e.id, pattern, metadata: e.metadata };
        proof {
            assert(entry_views(entries@.push(ne)) =~= entry_views(entries@).push(ne@));
            assert(want.take(i + 1) =~= want.take(i as int).push(want[i as int]));
        }
        entries.push(ne);
        i += 1;
    }
    proof {
        assert(want.take(i as int) =~= want);
    }
    RulePack {
        source: pack.source.clone(),
        load_type: pack.load_type,
        loaded_at: pack.loaded_at,
        entries,
    }
}

/// Processes a pack in the given mode; processing never fails.
pub fn process(pack: &RulePack, mode: ProcessMode) -> (r: ProcessedResult)
    ensures
        mode == ProcessMode::Summarize ==> (r matches ProcessedResult::Summary(s) && s@
            == summary_text(pack@)),
        mode == ProcessMode::Normalize ==> (r matches ProcessedResult::Normalized(q) && q@
            == normalized(pack@)),
{
    match mode {
        ProcessMode::Summarize => ProcessedResult::Summary(summarize(pack)),
        ProcessMode::Normalize => ProcessedResult::Normalized(normalize(pack)),
    }
}

} // verus!
