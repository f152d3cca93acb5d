use vstd::prelude::*;
use crate::error::ErrorKind;
use crate::load_type::{load_type_of, RuleLoadType};
use crate::pack::{entry_views, pair_views, EntryView, PackView, RuleEntry, RulePack};
use crate::parser::{pack_outcome, parse, text_pack_spec};
use crate::processor::{mode_of, normalized, process, summary_text, ProcessMode, ProcessedResult};
use crate::source::{
    all_read, is_directory_text, key_index, store_error, RawContent, RawRuleSource, Resolver,
    StoreRead,
};

verus! {

/// The `key=value` lines of metadata, each after a newline.
pub open spec fn meta_text(m: Seq<(Seq<char>, Seq<char>)>) -> Seq<char>
    decreases m.len(),
{
    if m.len() == 0 {
        Seq::empty()
    } else {
        meta_text(m.drop_last()) + "\n"@ + m.last().0 + "="@ + m.last().1
    }
}

/// An entry written as a rule block: its identifier, its pattern after a space
/// where there is one, then its metadata lines.
pub open spec fn entry_text(e: EntryView) -> Seq<char> {
    e.id + (if e.pattern.len() > 0 {
        " "@ + e.pattern
    } else {
        Seq::empty()
    }) + meta_text(e.metadata)
}

/// What stands before the `i`-th block of rule text.
pub open spec fn block_separator(i: int) -> Seq<char> {
    if i == 0 {
        Seq::empty()
    } else {
        "\n\n"@
    }
}

/// Entries written as rule text: their blocks, separated by blank lines.
pub open spec fn entries_text(es: Seq<EntryView>) -> Seq<char>
    decreases es.len(),
{
    if es.len() == 0 {
        Seq::empty()
    } else {
        entries_text(es.drop_last()) + block_separator(es.len() - 1) + entry_text(es.last())
    }
}

/// Writes one entry as a rule block.
pub fn render_entry(e: &RuleEntry) -> (r: String)
    ensures
        r@ == entry_text(e@),
{
    let mut out = e.id.clone();
    if e.pattern.unicode_len() > 0 {
        out.append(" ");
        out.append(e.pattern.as_str());
    }
    let ghost head = out@;
    let ghost m = pair_views(e.metadata@);
    let mut i: usize = 0;
    assert(m.take(0) =~= Seq::<(Seq<char>, Seq<char>)>::empty());
    while i < e.metadata.len()
        invariant
            m == pair_views(e.metadata@),
            i <= e.metadata@.len(),
            out@ == head + meta_text(m.take(i as int)),
        decreases e.metadata@.len() - i,
    {
        proof {
            assert(m.take(i + 1).drop_last() =~= m.take(i as int));
            assert(m.take(i + 1).last() == m[i as int]);
        }
        out.append("\n");
        out.append(e.metadata[i].0.as_str());
        out.append("=");
        out.append(e.metadata[i].1.as_str());
        proof {
            assert(out@ =~= head + meta_text(m.take(i + 1)));
        }
        i += 1;
    }
    proof {
        assert(m.take(m.len() as int) =~= m);
    }
    out
}

/// Writes a pack's entries as rule text.
pub fn render_pack(pack: &RulePack) -> (r: String)
    ensures
        r@ == entries_text(pack@.entries),
{
    let ghost es = pack@.entries;
    let mut out = String::new();
    let mut i: usize = 0;
    assert(es.take(0) =~= Seq::<EntryView>::empty());
    while i < pack.entries.len()
        invariant
            es == entry_views(pack.entries@),
            i <= pack.entries@.len(),
            out@ == entries_text(es.take(i as int)),
        decreases pack.entries@.len() - i,
    {
        proof {
            assert(es.take(i + 1).drop_last() =~= es.take(i as int));
            assert(es.take(i + 1).last() == pack.entries@[i as int]@);
        }
        if i > 0 {
            out.append("\n\n");
        } else {
            proof {
                assert(out@ + block_separator(0) =~= out@);
            }
        }
        let block = render_entry(&pack.entries[i]);
        out.append(block.as_str());
        proof {
            assert(out@ =~= entries_text(es.take(i + 1)));
        }
        i += 1;
    }
    proof {
        assert(es.take(es.len() as int) =~= es);
    }
    out
}

/// The text that processing a pack in a mode hands to the caller: the summary,
/// or the normalized pack written as rule text.
pub open spec fn output_text(p: PackView, mode: ProcessMode) -> Seq<char> {
    match mode {
        ProcessMode::Summarize => summary_text(p),
        ProcessMode::Normalize => entries_text(normalized(p).entries),
    }
}

/// What a parse outcome gives the caller once processed.
pub open spec fn output_of(r: Result<PackView, ErrorKind>, mode: ProcessMode) -> Result<Seq<char>, ErrorKind> {
    match r {
        Ok(p) => Ok(output_text(p, mode)),
        Err(e) => Err(e),
    }
}

/// A text result seen as characters.
pub open spec fn text_view(r: Result<String, ErrorKind>) -> Result<Seq<char>, ErrorKind> {
    match r {
        Ok(s) => Ok(s@),
        Err(e) => Err(e),
    }
}

/// Parses raw content and processes the pack, as text.
pub fn process_raw(raw: RawRuleSource, mode: ProcessMode) -> (r: Result<String, ErrorKind>)
    ensures
        raw.content matches RawContent::Structured(p) ==> text_view(r) == Ok::<
            Seq<char>,
            ErrorKind,
        >(output_text(p@, mode)),
        raw.content matches RawContent::Text(t) ==> text_view(r) == output_of(
            text_pack_spec(raw.identifier@, raw.load_type, raw.loaded_at, t@),
            mode,
        ),
{
    let ghost content = raw.content;
    let ghost id = raw.identifier@;
    let ghost lt = raw.load_type;
    let ghost at = raw.loaded_at;
    match parse(raw) {
        Ok(pack) => match process(&pack, mode) {
            ProcessedResult::Summary(s) => Ok(s),
            ProcessedResult::Normalized(q) => Ok(render_pack(&q)),
        },
        Err(e) => Err(e),
    }
}

/// Resolves a rule pack, parses it and processes it: the single entry point.
/// `store` is what the filesystem holds at the path `identifier`, read by the
/// caller for the file and directory load types; `loaded_at` is the caller's clock.
pub fn resolve_and_process(
    resolver: &Resolver,
    identifier: &str,
    load_type_tag: &str,
    mode_tag: &str,
    loaded_at: u64,
    store: StoreRead,
) -> (r: Result<String, ErrorKind>)
    ensures
        load_type_of(load_type_tag@) is None ==> r == Err::<String, ErrorKind>(
            ErrorKind::InvalidLoadType,
        ),
        load_type_of(load_type_tag@) is Some && mode_of(mode_tag@) is None ==> r == Err::<
            String,
            ErrorKind,
        >(ErrorKind::InvalidMode),
        ({
            let lt = load_type_of(load_type_tag@);
            let mode = mode_of(mode_tag@);
            lt matches Some(t) ==> (mode matches Some(m) ==> {
                &&& (t == RuleLoadType::File || t == RuleLoadType::Directory) ==> (store_error(
                    t,
                    store,
                ) matches Some(e) ==> r == Err::<String, ErrorKind>(e))
                &&& t == RuleLoadType::File ==> (store matches StoreRead::File(c) ==> text_view(r)
                    == output_of(text_pack_spec(identifier@, t, loaded_at, c@), m))
                &&& t == RuleLoadType::Directory ==> (store matches StoreRead::Directory(fs) ==> (
                all_read(fs@) ==> exists|c: Seq<char>|
                    is_directory_text(fs@, c) && text_view(r) == output_of(
                        text_pack_spec(identifier@, t, loaded_at, c),
                        m,
                    )))
                &&& t == RuleLoadType::Name ==> (key_index(resolver.named@, identifier@) matches Some(
                    i,
                ) ==> text_view(r) == output_of(
                    text_pack_spec(identifier@, t, loaded_at, resolver.named@[i].1@),
                    m,
                ))
                &&& t == RuleLoadType::Class ==> (key_index(resolver.classes@, identifier@) matches Some(
                    i,
                ) ==> text_view(r) == Ok::<Seq<char>, ErrorKind>(
                    output_text(resolver.classes@[i].1@, m),
                ))
                &&& (t == RuleLoadType::Name && key_index(resolver.named@, identifier@) is None) ==> r
                    == Err::<String, ErrorKind>(ErrorKind::SourceNotFound)
                &&& (t == RuleLoadType::Class && key_index(resolver.classes@, identifier@) is None)
                    ==> r == Err::<String, ErrorKind>(ErrorKind::SourceNotFound)
            })
        }),
{
    let load_type = match RuleLoadType::parse(load_type_tag) {
        Ok(t) => t,
        Err(e) => {
            return Err(e);
        },
    };
    let mode = match ProcessMode::parse(mode_tag) {
        Ok(m) => m,
        Err(e) => {
            return Err(e);
        },
    };
    let ghost st = store;
    match resolver.resolve(identifier, load_type, loaded_at, store) {
        Ok(raw) => {
            let ghost content = raw.content;
            let r = process_raw(raw, mode);
            proof {
                if load_type == RuleLoadType::Directory {
                    if let StoreRead::Directory(fs) = st {
                        if all_read(fs@) {
                            if let RawContent::Text(c) = content {
                                assert(is_directory_text(fs@, c@));
                            }
                        }
                    }
                }
            }
            r
        },
        Err(e) => Err(e),
    }
}

} // verus!
