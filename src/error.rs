use vstd::prelude::*;

verus! {

/// Why a rule-pack request failed. Every kind is terminal for its request.
#[derive(Clone, Copy, Debug, PartialEq, Eq, Structural)]
pub enum ErrorKind {
    /// The load-type tag is not one of the recognized tags.
    InvalidLoadType,
    /// The identifier names nothing in the backing store.
    SourceNotFound,
    /// The backing store holds the source but it could not be read.
    SourceUnreadable,
    /// Reading the backing store took longer than the caller allowed.
    SourceTimeout,
    /// Two rule blocks of one pack share an identifier.
    DuplicateRuleId,
    /// A rule block has no extractable identifier.
    MalformedRule,
    /// The processing-mode tag is not one of the recognized tags.
    InvalidMode,
}

impl ErrorKind {
    /// A short human-readable description of the error.
    pub fn message(&self) -> (r: String)
        ensures
            r@.len() > 0,
    {
        let s = match self {
            ErrorKind::InvalidLoadType => "invalid load type",
            ErrorKind::SourceNotFound => "rule source not found",
            ErrorKind::SourceUnreadable => "rule source unreadable",
            ErrorKind::SourceTimeout => "timed out reading rule source",
            ErrorKind::DuplicateRuleId => "duplicate rule identifier",
            ErrorKind::MalformedRule => "malformed rule block",
            ErrorKind::InvalidMode => "invalid processing mode",
        };
        proof {
            reveal_strlit("invalid load type");
            reveal_strlit("rule source not found");
            reveal_strlit("rule source unreadable");
            reveal_strlit("timed out reading rule source");
            reveal_strlit("duplicate rule identifier");
            reveal_strlit("malformed rule block");
            reveal_strlit("invalid processing mode");
        }
        String::from_str(s)
    }
}

} // verus!
