use vstd::prelude::*;
use crate::error::ErrorKind;
use crate::load_type::RuleLoadType;
use crate::order::{lemma_text_lt_asymmetric, text_less, text_lt};
use crate::pack::RulePack;

verus! {

broadcast use vstd::seq_lib::group_to_multiset_ensures;

/// One file directly inside a rule directory, as the caller read it.
pub struct DirFile {
    pub name: String,
    /// The file's text, or `None` where it could not be read.
    pub content: Option<String>,
}

/// Files in non-decreasing order of name.
pub open spec fn sorted_by_name(s: Seq<DirFile>) -> bool {
    forall|i: int| 0 <= i < s.len() - 1 ==> !text_lt(#[trigger] s[i + 1].name@, s[i].name@)
}

/// Every file of the sequence was read.
pub open spec fn all_read(s: Seq<DirFile>) -> bool {
    forall|i: int| 0 <= i < s.len() ==> (#[trigger] s[i]).content is Some
}

/// The texts of the files, one after the other.
pub open spec fn joined_text(s: Seq<DirFile>) -> Seq<char>
    decreases s.len(),
{
    if s.len() == 0 {
        Seq::empty()
    } else {
        joined_text(s.drop_last()) + s.last().content.unwrap()@
    }
}

/// Puts files in order of name.
pub fn sort_by_name(files: Vec<DirFile>) -> (r: Vec<DirFile>)
    ensures
        r@.to_multiset() == files@.to_multiset(),
        sorted_by_name(r@),
{
    let mut rest = files;
    let mut out: Vec<DirFile> = Vec::new();
    while rest.len() > 0
        invariant
            out@.to_multiset().add(rest@.to_multiset()) == files@.to_multiset(),
            sorted_by_name(out@),
        decreases rest@.len(),
    {
        let ghost before = rest@;
        let f = rest.pop().unwrap();
        proof {
            assert(before == rest@.push(f));
        }
        let mut p: usize = 0;
        let mut found = false;
        while p < out.len() && !found
            invariant
                p <= out@.len(),
                found ==> p < out@.len() && text_lt(f.name@, out@[p as int].name@),
                forall|j: int| 0 <= j < p ==> !text_lt(f.name@, #[trigger] out@[j].name@),
            decreases out@.len() - p, if found { 0int } else { 1int },
        {
            if text_less(f.name.as_str(), out[p].name.as_str()) {
                found = true;
            } else {
                p += 1;
            }
        }
        let ghost old_out = out@;
        proof {
            if p < out@.len() {
                lemma_text_lt_asymmetric(f.name@, out@[p as int].name@);
            }
        }
        out.insert(p, f);
        proof {
            assert(out@ == old_out.insert(p as int, f));
            assert forall|i: int| 0 <= i < out@.len() - 1 implies !text_lt(
                #[trigger] out@[i + 1].name@,
                out@[i].name@,
            ) by {
                if i + 1 < p {
                    assert(out@[i] == old_out[i] && out@[i + 1] == old_out[i + 1]);
                    assert(!text_lt(old_out[i + 1].name@, old_out[i].name@));
                } else if i + 1 == p {
                    assert(out@[i] == old_out[i]);
                    assert(out@[i + 1] == f);
                    assert(!text_lt(f.name@, old_out[i].name@));
                } else if i == p {
                    assert(out@[i] == f);
                    assert(out@[i + 1] == old_out[i]);
                } else {
                    assert(out@[i] == old_out[i - 1] && out@[i + 1] == old_out[i]);
                    let h = i - 1;
                    assert(!text_lt(old_out[h + 1].name@, old_out[h].name@));
                }
            }
        }
    }
    out
}

/// Joins the texts of files that were all read.
pub fn join_texts(files: &Vec<DirFile>) -> (r: String)
    requires
        all_read(files@),
    ensures
        r@ == joined_text(files@),
{
    let mut out = String::new();
    let mut i: usize = 0;
    while i < files.len()
        invariant
            i <= files@.len(),
            all_read(files@),
            out@ == joined_text(files@.take(i as int)),
        decreases files@.len() - i,
    {
        proof {
            assert(files@.take(i + 1).drop_last() =~= files@.take(i as int));
        }
        match &files[i].content {
            Some(t) => out.append(t.as_str()),
            None => {},
        }
        i += 1;
    }
    proof {
        assert(files@.take(files@.len() as int) =~= files@);
    }
    out
}

/// Finds a file that could not be read.
pub fn first_unread(files: &Vec<DirFile>) -> (r: Option<usize>)
    ensures
        r is None <==> all_read(files@),
        r matches Some(i) ==> i < files@.len() && files@[i as int].content is None,
{
    let mut i: usize = 0;
    while i < files.len()
        invariant
            i <= files@.len(),
            forall|j: int| 0 <= j < i ==> (#[trigger] files@[j]).content is Some,
        decreases files@.len() - i,
    {
        if files[i].content.is_none() {
            return Some(i);
        }
        i += 1;
    }
    None
}

/// What the caller found in the filesystem at an identifier's path.
pub enum StoreRead {
    /// Nothing exists at the path.
    Missing,
    /// Something exists at the path but reading it failed.
    Unreadable,
    /// Reading did not finish within the caller's time limit.
    TimedOut,
    /// A regular file, with its text.
    File(String),
    /// A directory, with the files directly inside it.
    Directory(Vec<DirFile>),
}

/// Rule content: text still to be parsed, or a pack that is already structured.
pub enum RawContent {
    Text(String),
    Structured(RulePack),
}

/// Rule content with the identifier and load type that produced it.
pub struct RawRuleSource {
    pub identifier: String,
    pub load_type: RuleLoadType,
    /// When the content was loaded, as the caller's clock gave it.
    pub loaded_at: u64,
    pub content: RawContent,
}

/// `i` is the first position of the registry whose key is `k`.
pub open spec fn first_key_at<V>(reg: Seq<(String, V)>, k: Seq<char>, i: int) -> bool {
    0 <= i < reg.len() && reg[i].0@ == k && forall|j: int| 0 <= j < i ==> reg[j].0@ != k
}

/// The first position of the registry whose key is `k`, if any.
pub open spec fn key_index<V>(reg: Seq<(String, V)>, k: Seq<char>) -> Option<int> {
    if exists|i: int| first_key_at(reg, k, i) {
        Some(choose|i: int| first_key_at(reg, k, i))
    } else {
        None
    }
}

/// Finds the first entry of a registry with the given key.
pub fn find_key<V>(reg: &Vec<(String, V)>, k: &str) -> (r: Option<usize>)
    ensures
        r matches Some(i) ==> key_index(reg@, k@) == Some(i as int),
        r is None ==> key_index(reg@, k@) is None,
{
    let mut i: usize = 0;
    while i < reg.len()
        invariant
            i <= reg@.len(),
            forall|j: int| 0 <= j < i ==> (#[trigger] reg@[j]).0@ != k@,
        decreases reg@.len() - i,
    {
        if crate::text::text_eq(reg[i].0.as_str(), k) {
            proof {
                assert(first_key_at(reg@, k@, i as int));
                let c = choose|c: int| first_key_at(reg@, k@, c);
                if c < i {
                    assert(reg@[c].0@ != k@);
                } else if c > i {
                    assert(reg@[i as int].0@ != k@);
                }
            }
            return Some(i);
        }
        i += 1;
    }
    None
}

/// The error that reading a file or directory gives, if reading it failed.
pub open spec fn store_error(load_type: RuleLoadType, store: StoreRead) -> Option<ErrorKind> {
    match store {
        StoreRead::Missing => Some(ErrorKind::SourceNotFound),
        StoreRead::Unreadable => Some(ErrorKind::SourceUnreadable),
        StoreRead::TimedOut => Some(ErrorKind::SourceTimeout),
        StoreRead::File(_) => if load_type == RuleLoadType::Directory {
            Some(ErrorKind::SourceNotFound)
        } else {
            None
        },
        StoreRead::Directory(fs) => if load_type == RuleLoadType::File {
            Some(ErrorKind::SourceUnreadable)
        } else if !all_read(fs@) {
            Some(ErrorKind::SourceUnreadable)
        } else {
            None
        },
    }
}

/// The text of a directory: its files' texts in order of file name.
pub open spec fn is_directory_text(fs: Seq<DirFile>, t: Seq<char>) -> bool {
    exists|s: Seq<DirFile>|
        s.to_multiset() == fs.to_multiset() && sorted_by_name(s) && t == joined_text(s)
}

/// The backing stores that rule packs are resolved from by name and by class path.
pub struct Resolver {
    /// Raw rule text under each name.
    pub named: Vec<(String, String)>,
    /// Already structured packs under each dotted class path.
    pub classes: Vec<(String, RulePack)>,
}

impl Resolver {
    /// A resolver with no named and no class registry entries.
    pub fn new() -> (r: Resolver)
        ensures
            r.named@.len() == 0,
            r.classes@.len() == 0,
    {
        Resolver { named: Vec::new(), classes: Vec::new() }
    }

    /// Locates the raw content of a rule pack. `store` is what the filesystem
    /// holds at the path `identifier`; it is read only for the file and
    /// directory load types.
    pub fn resolve(&self, identifier: &str, load_type: RuleLoadType, loaded_at: u64, store: StoreRead) -> (r:
        Result<RawRuleSource, ErrorKind>)
        ensures
            r matches Ok(raw) ==> raw.identifier@ == identifier@ && raw.load_type == load_type
                && raw.loaded_at == loaded_at,
            (load_type == RuleLoadType::File || load_type == RuleLoadType::Directory) ==> (
            store_error(load_type, store) matches Some(e) ==> r == Err::<RawRuleSource, ErrorKind>(e)),
            load_type == RuleLoadType::File ==> (store matches StoreRead::File(t) ==> (r matches Ok(
                raw,
            ) && raw.content matches RawContent::Text(c) && c@ == t@)),
            load_type == RuleLoadType::Directory ==> (store matches StoreRead::Directory(fs) ==> (
            all_read(fs@) ==> (r matches Ok(raw) && raw.content matches RawContent::Text(c)
                && is_directory_text(fs@, c@)))),
            load_type == RuleLoadType::Name ==> (key_index(self.named@, identifier@) matches Some(i)
                ==> (r matches Ok(raw) && raw.content matches RawContent::Text(c) && c@
                == self.named@[i].1@)),
            load_type == RuleLoadType::Name ==> (key_index(self.named@, identifier@) is None ==> r
                == Err::<RawRuleSource, ErrorKind>(ErrorKind::SourceNotFound)),
            load_type == RuleLoadType::Class ==> (key_index(self.classes@, identifier@) matches Some(
                i,
            ) ==> (r matches Ok(raw) && raw.content matches RawContent::Structured(p) && p@
                == self.classes@[i].1@)),
            load_type == RuleLoadType::Class ==> (key_index(self.classes@, identifier@) is None ==> r
                == Err::<RawRuleSource, ErrorKind>(ErrorKind::SourceNotFound)),
    {
        let content = match load_type {
            RuleLoadType::Name => match find_key(&self.named, identifier) {
                Some(i) => RawContent::Text(self.named[i].1.clone()),
                None => {
                    return Err(ErrorKind::SourceNotFound);
                },
            },
            RuleLoadType::Class => match find_key(&self.classes, identifier) {
                Some(i) => RawContent::Structured(self.classes[i].1.copy()),
                None => {
                    return Err(ErrorKind::SourceNotFound);
                },
            },
            RuleLoadType::File => match store {
                StoreRead::File(t) => RawContent::Text(t),
                StoreRead::Missing => {
                    return Err(ErrorKind::SourceNotFound);
                },
                StoreRead::TimedOut => {
                    return Err(ErrorKind::SourceTimeout);
                },
                _ => {
                    return Err(ErrorKind::SourceUnreadable);
                },
            },
            RuleLoadType::Directory => match store {
                StoreRead::Directory(fs) => {
                    if first_unread(&fs).is_some() {
                        return Err(ErrorKind::SourceUnreadable);
                    }
                    let sorted = sort_by_name(fs);
                    proof {
                        assert(all_read(sorted@)) by {
                            assert forall|i: int| 0 <= i < sorted@.len() implies (
                            #[trigger] sorted@[i]).content is Some by {
                                assert(sorted@.to_multiset().count(sorted@[i]) > 0);
                                assert(fs@.contains(sorted@[i]));
                            }
                        }
                    }
                    let t = join_texts(&sorted);
                    assert(is_directory_text(fs@, t@));
                    RawContent::Text(t)
                },
                StoreRead::Missing | StoreRead::File(_) => {
                    return Err(ErrorKind::SourceNotFound);
                },
                StoreRead::TimedOut => {
                    return Err(ErrorKind::SourceTimeout);
                },
                StoreRead::Unreadable => {
                    return Err(ErrorKind::SourceUnreadable);
                },
            },
        };
        Ok(RawRuleSource { identifier: String::from_str(identifier), load_type, loaded_at, content })
    }
}

} // verus!
