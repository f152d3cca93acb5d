use vstd::prelude::*;
use crate::error::ErrorKind;
use crate::text::text_eq;

verus! {

/// How a rule-pack identifier is resolved to rule content.
#[derive(Clone, Copy, Debug, PartialEq, Eq, Structural)]
pub enum RuleLoadType {
    Directory,
    Name,
    File,
    Class,
}

/// The textual tag of each load type.
pub open spec fn tag_of(t: RuleLoadType) -> Seq<char> {
    match t {
        RuleLoadType::Directory => "dir"@,
        RuleLoadType::Name => "name"@,
        RuleLoadType::File => "file"@,
        RuleLoadType::Class => "class"@,
    }
}

/// The load type whose tag is `tag`, if there is one.
pub open spec fn load_type_of(tag: Seq<char>) -> Option<RuleLoadType> {
    if tag == "dir"@ {
        Some(RuleLoadType::Directory)
    } else if tag == "name"@ {
        Some(RuleLoadType::Name)
    } else if tag == "file"@ {
        Some(RuleLoadType::File)
    } else if tag == "class"@ {
        Some(RuleLoadType::Class)
    } else {
        None
    }
}

/// The four tags are pairwise distinct.
pub proof fn lemma_tags_distinct()
    ensures
        "dir"@ != "name"@,
        "dir"@ != "file"@,
        "dir"@ != "class"@,
        "name"@ != "file"@,
        "name"@ != "class"@,
        "file"@ != "class"@,
{
    reveal_strlit("dir");
    reveal_strlit("name");
    reveal_strlit("file");
    reveal_strlit("class");
    assert("dir"@[0] != "name"@[0]);
    assert("dir"@[0] != "file"@[0]);
    assert("dir"@[0] != "class"@[0]);
    assert("name"@[0] != "file"@[0]);
    assert("name"@[0] != "class"@[0]);
    assert("file"@[0] != "class"@[0]);
}

/// Parsing the rendered tag of a load type gives that load type back,
/// and rendering the load type parsed from a valid tag gives that tag back.
pub proof fn lemma_tag_round_trip(t: RuleLoadType, tag: Seq<char>)
    ensures
        load_type_of(tag_of(t)) == Some(t),
        load_type_of(tag) matches Some(u) ==> tag_of(u) == tag,
{
    lemma_tags_distinct();
}

impl RuleLoadType {
    /// Reads a load type from its lowercase tag: `dir`, `name`, `file` or `class`.
    pub fn parse(tag: &str) -> (r: Result<RuleLoadType, ErrorKind>)
        ensures
            load_type_of(tag@) matches Some(t) ==> r == Ok::<RuleLoadType, ErrorKind>(t),
            load_type_of(tag@) is None ==> r == Err::<RuleLoadType, ErrorKind>(
                ErrorKind::InvalidLoadType,
            ),
    {
        if text_eq(tag, "dir") {
            Ok(RuleLoadType::Directory)
        } else if text_eq(tag, "name") {
            Ok(RuleLoadType::Name)
        } else if text_eq(tag, "file") {
            Ok(RuleLoadType::File)
        } else if text_eq(tag, "class") {
            Ok(RuleLoadType::Class)
        } else {
            Err(ErrorKind::InvalidLoadType)
        }
    }

    /// The tag of this load type; the inverse of `parse`.
    pub fn render(&self) -> (r: String)
        ensures
            r@ == tag_of(*self),
    {
        match self {
            RuleLoadType::Directory => String::from_str("dir"),
            RuleLoadType::Name => String::from_str("name"),
            RuleLoadType::File => String::from_str("file"),
            RuleLoadType::Class => String::from_str("class"),
        }
    }
}

} // verus!
