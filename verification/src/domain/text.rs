//! Validated text newtypes for entries, purposes, tags and reasons.
use vstd::prelude::*;

use crate::text::{lowercase, to_lowercase, trim, trimmed};

verus! {

/// Longest accepted task or objective text, in characters.
pub const ENTRY_MAX_CHARS: usize = 4096;

/// Longest accepted purpose text, in characters.
pub const PURPOSE_MAX_CHARS: usize = 2048;

/// Longest accepted tag, in characters.
pub const TAG_MAX_CHARS: usize = 96;

/// Longest accepted retraction reason, in characters.
pub const REASON_MAX_CHARS: usize = 2048;

/// A rule that a cleaned text breaks.
#[derive(Debug, Clone, Copy, PartialEq, Eq, Structural)]
pub enum TextError {
    /// The text is empty.
    NotEmptyViolated,
    /// The text is longer than allowed.
    LenCharMaxViolated,
}

impl TextError {
    /// The rule's name.
    pub open spec fn label(self) -> Seq<char> {
        match self {
            TextError::NotEmptyViolated => "NotEmptyViolated"@,
            TextError::LenCharMaxViolated => "LenCharMaxViolated"@,
        }
    }

    /// Returns the rule's name.
    pub fn name(&self) -> (s: &'static str)
        ensures
            s@ == self.label(),
    {
        match self {
            TextError::NotEmptyViolated => "NotEmptyViolated",
            TextError::LenCharMaxViolated => "LenCharMaxViolated",
        }
    }
}

/// The rule a cleaned text breaks, or `None` when it is accepted: it must be
/// non-empty and at most `max` characters long.
pub open spec fn violation(t: Seq<char>, max: nat) -> Option<TextError> {
    if t.len() == 0 {
        Some(TextError::NotEmptyViolated)
    } else if t.len() > max {
        Some(TextError::LenCharMaxViolated)
    } else {
        None
    }
}

/// Checks a cleaned text against the length rules.
fn check(t: &str, max: usize) -> (r: Result<(), TextError>)
    ensures
        match violation(t@, max as nat) {
            Some(v) => r == Err::<(), TextError>(v),
            None => r is Ok,
        },
{
    let n = t.unicode_len();
    if n == 0 {
        Err(TextError::NotEmptyViolated)
    } else if n > max {
        Err(TextError::LenCharMaxViolated)
    } else {
        Ok(())
    }
}

/// A cleaned tag: trimmed, then lowercased.
pub open spec fn clean_tag(raw: Seq<char>) -> Seq<char> {
    lowercase(trimmed(raw))
}

/// Validated task or objective text: trimmed, non-empty, at most 4096 characters.
#[derive(Debug, Clone, PartialEq, Eq)]
pub struct EntryText {
    value: String,
}

/// Validated purpose text: trimmed, non-empty, at most 2048 characters.
#[derive(Debug, Clone, PartialEq, Eq)]
pub struct PurposeText {
    value: String,
}

/// Validated tag: trimmed and lowercased, non-empty, at most 96 characters.
#[derive(Debug, Clone, PartialEq, Eq)]
pub struct TagText {
    value: String,
}

/// Validated retraction reason: trimmed, non-empty, at most 2048 characters.
#[derive(Debug, Clone, PartialEq, Eq)]
pub struct ReasonText {
    value: String,
}

impl EntryText {
    /// The validated text.
    pub closed spec fn text(&self) -> Seq<char> {
        self.value@
    }

    /// Trims and validates.
    pub fn try_new(raw: String) -> (r: Result<Self, TextError>)
        ensures
            match violation(trimmed(raw@), ENTRY_MAX_CHARS as nat) {
                Some(v) => r matches Err(e) && e == v,
                None => r matches Ok(t) && t.text() == trimmed(raw@),
            },
    {
        let value = trim(raw.as_str());
        check(value.as_str(), ENTRY_MAX_CHARS)?;
        Ok(EntryText { value })
    }

    /// Returns the validated text.
    pub fn into_inner(self) -> (s: String)
        ensures
            s@ == self.text(),
    {
        self.value
    }
}

impl PurposeText {
    /// The validated text.
    pub closed spec fn text(&self) -> Seq<char> {
        self.value@
    }

    /// Trims and validates.
    pub fn try_new(raw: String) -> (r: Result<Self, TextError>)
        ensures
            match violation(trimmed(raw@), PURPOSE_MAX_CHARS as nat) {
                Some(v) => r matches Err(e) && e == v,
                None => r matches Ok(t) && t.text() == trimmed(raw@),
            },
    {
        let value = trim(raw.as_str());
        check(value.as_str(), PURPOSE_MAX_CHARS)?;
        Ok(PurposeText { value })
    }

    /// Returns the validated text.
    pub fn into_inner(self) -> (s: String)
        ensures
            s@ == self.text(),
    {
        self.value
    }
}

impl TagText {
    /// The validated tag.
    pub closed spec fn text(&self) -> Seq<char> {
        self.value@
    }

    /// Trims, lowercases and validates.
    pub fn try_new(raw: String) -> (r: Result<Self, TextError>)
        ensures
            match violation(clean_tag(raw@), TAG_MAX_CHARS as nat) {
                Some(v) => r matches Err(e) && e == v,
                None => r matches Ok(t) && t.text() == clean_tag(raw@),
            },
    {
        let trimmed_value = trim(raw.as_str());
        let value = to_lowercase(trimmed_value.as_str());
        check(value.as_str(), TAG_MAX_CHARS)?;
        Ok(TagText { value })
    }

    /// Returns the validated tag.
    pub fn into_inner(self) -> (s: String)
        ensures
            s@ == self.text(),
    {
        self.value
    }
}

impl ReasonText {
    /// The validated text.
    pub closed spec fn text(&self) -> Seq<char> {
        self.value@
    }

    /// Trims and validates.
    pub fn try_new(raw: String) -> (r: Result<Self, TextError>)
        ensures
            match violation(trimmed(raw@), REASON_MAX_CHARS as nat) {
                Some(v) => r matches Err(e) && e == v,
                None => r matches Ok(t) && t.text() == trimmed(raw@),
            },
    {
        let value = trim(raw.as_str());
        check(value.as_str(), REASON_MAX_CHARS)?;
        Ok(ReasonText { value })
    }

    /// Returns the validated text.
    pub fn into_inner(self) -> (s: String)
        ensures
            s@ == self.text(),
    {
        self.value
    }
}

} // verus!
