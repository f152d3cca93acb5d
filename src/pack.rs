use vstd::prelude::*;
use crate::error::ErrorKind;
use crate::load_type::RuleLoadType;

verus! {

/// One rule: an identifier, a pattern in the engine's own grammar, and metadata.
#[derive(Clone, Debug)]
pub struct RuleEntry {
    pub id: String,
    pub pattern: String,
    pub metadata: Vec<(String, String)>,
}

/// A rule entry seen as character sequences.
pub struct EntryView {
    pub id: Seq<char>,
    pub pattern: Seq<char>,
    pub metadata: Seq<(Seq<char>, Seq<char>)>,
}

/// The views of metadata pairs.
pub open spec fn pair_views(m: Seq<(String, String)>) -> Seq<(Seq<char>, Seq<char>)> {
    m.map_values(|p: (String, String)| (p.0@, p.1@))
}

impl View for RuleEntry {
    type V = EntryView;

    open spec fn view(&self) -> EntryView {
        EntryView { id: self.id@, pattern: self.pattern@, metadata: pair_views(self.metadata@) }
    }
}

/// The views of a sequence of entries.
pub open spec fn entry_views(es: Seq<RuleEntry>) -> Seq<EntryView> {
    es.map_values(|e: RuleEntry| e@)
}

/// No two entries share an identifier.
pub open spec fn ids_unique(es: Seq<EntryView>) -> bool {
    forall|i: int, j: int| 0 <= i < j < es.len() ==> es[i].id != es[j].id
}

/// An ordered collection of rules with the provenance of the pack.
#[derive(Clone, Debug)]
pub struct RulePack {
    /// The identifier the pack was resolved from.
    pub source: String,
    pub load_type: RuleLoadType,
    /// When the pack was loaded, as the caller's clock gave it.
    pub loaded_at: u64,
    /// The rules in declaration order.
    pub entries: Vec<RuleEntry>,
}

/// A rule pack seen as character sequences.
pub struct PackView {
    pub source: Seq<char>,
    pub load_type: RuleLoadType,
    pub loaded_at: u64,
    pub entries: Seq<EntryView>,
}

impl View for RulePack {
    type V = PackView;

    open spec fn view(&self) -> PackView {
        PackView {
            source: self.source@,
            load_type: self.load_type,
            loaded_at: self.loaded_at,
            entries: entry_views(self.entries@),
        }
    }
}

impl RuleEntry {
    /// A copy of the entry.
    pub fn copy(&self) -> (r: RuleEntry)
        ensures
            r@ == self@,
    {
        let mut metadata: Vec<(String, String)> = Vec::new();
        let mut i: usize = 0;
        while i < self.metadata.len()
            invariant
                i <= self.metadata@.len(),
                pair_views(metadata@) == pair_views(self.metadata@).take(i as int),
            decreases self.metadata@.len() - i,
        {
            let k = self.metadata[i].0.clone();
            let v = self.metadata[i].1.clone();
            proof {
                assert(pair_views(metadata@.push((k, v))) =~= pair_views(metadata@).push((k@, v@)));
                assert(pair_views(self.metadata@).take(i + 1) =~= pair_views(self.metadata@).take(
                    i as int,
                ).push(pair_views(self.metadata@)[i as int]));
            }
            metadata.push((k, v));
            i += 1;
        }
        proof {
            assert(pair_views(self.metadata@).take(i as int) =~= pair_views(self.metadata@));
        }
        RuleEntry { id: self.id.clone(), pattern: self.pattern.clone(), metadata }
    }
}

impl RulePack {
    /// A copy of the pack.
    pub fn copy(&self) -> (r: RulePack)
        ensures
            r@ == self@,
    {
        let mut entries: Vec<RuleEntry> = Vec::new();
        let mut i: usize = 0;
        while i < self.entries.len()
            invariant
                i <= self.entries@.len(),
                entry_views(entries@) == entry_views(self.entries@).take(i as int),
            decreases self.entries@.len() - i,
        {
            let e = self.entries[i].copy();
            proof {
                assert(entry_views(entries@.push(e)) =~= entry_views(entries@).push(e@));
                assert(entry_views(self.entries@).take(i + 1) =~= entry_views(self.entries@).take(
                    i as int,
                ).push(entry_views(self.entries@)[i as int]));
            }
            entries.push(e);
            i += 1;
        }
        proof {
            assert(entry_views(self.entries@).take(i as int) =~= entry_views(self.entries@));
        }
        RulePack {
            source: self.source.clone(),
            load_type: self.load_type,
            loaded_at: self.loaded_at,
            entries,
        }
    }

    /// The entries of the pack as views.
    pub open spec fn entries_view(&self) -> Seq<EntryView> {
        entry_views(self.entries@)
    }

    /// A well-formed pack has unique entry identifiers.
    pub open spec fn wf(&self) -> bool {
        ids_unique(self.entries_view())
    }

    /// Builds a pack, refusing entries that share an identifier.
    pub fn new(source: String, load_type: RuleLoadType, loaded_at: u64, entries: Vec<RuleEntry>) -> (r:
        Result<RulePack, ErrorKind>)
        ensures
            ids_unique(entry_views(entries@)) ==> (r matches Ok(p) && p.source == source
                && p.load_type == load_type && p.loaded_at == loaded_at && p.entries@ == entries@),
            !ids_unique(entry_views(entries@)) ==> r == Err::<RulePack, ErrorKind>(
                ErrorKind::DuplicateRuleId,
            ),
    {
        if first_duplicate(&entries).is_some() {
            Err(ErrorKind::DuplicateRuleId)
        } else {
            Ok(RulePack { source, load_type, loaded_at, entries })
        }
    }

    /// The number of entries.
    pub fn len(&self) -> (r: usize)
        ensures
            r == self.entries@.len(),
    {
        self.entries.len()
    }
}

/// Finds two entries that share an identifier: the earliest such later entry,
/// with the position of its first namesake.
pub fn first_duplicate(es: &Vec<RuleEntry>) -> (r: Option<(usize, usize)>)
    ensures
        r is None <==> ids_unique(entry_views(es@)),
        r matches Some((i, j)) ==> i < j < es@.len() && es@[i as int].id@ == es@[j as int].id@,
{
    let ghost ev = entry_views(es@);
    let n = es.len();
    let mut j: usize = 0;
    while j < n
        invariant
            n == es@.len(),
            ev == entry_views(es@),
            j <= n,
            forall|a: int, b: int| 0 <= a < b < j ==> ev[a].id != ev[b].id,
        decreases n - j,
    {
        let mut i: usize = 0;
        while i < j
            invariant
                n == es@.len(),
                ev == entry_views(es@),
                i <= j < n,
                forall|a: int| 0 <= a < i ==> ev[a].id != ev[j as int].id,
            decreases j - i,
        {
            if es[i].id == es[j].id {
                assert(ev[i as int].id == ev[j as int].id);
                return Some((i, j));
            }
            i += 1;
        }
        j += 1;
    }
    None
}

} // verus!
