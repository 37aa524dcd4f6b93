use vstd::prelude::*;

verus! {

/// Stable error payload used by the JSON CLI contract.
#[derive(Debug, Clone)]
pub struct ErrorPayload {
    pub code: &'static str,
    pub message: String,
}

/// Application error with a stable machine code and readable message.
#[derive(Debug, Clone)]
pub struct SillokError {
    pub code: &'static str,
    pub message: String,
}

impl SillokError {
    /// Builds an application error.
    pub fn new(code: &'static str, message: String) -> (err: Self)
        ensures
            err.code == code,
            err.message@ == message@,
    {
        SillokError { code, message }
    }

    /// Returns the stable machine-readable code.
    pub fn code(&self) -> (c: &'static str)
        ensures
            c == self.code,
    {
        self.code
    }

    /// The error as text: its code, a colon, and its message.
    pub fn to_text(&self) -> (s: String)
        ensures
            s@ == self.code@ + ": "@ + self.message@,
    {
        let mut s = crate::text::owned(self.code);
        crate::text::push_str(&mut s, ": ");
        crate::text::push_str(&mut s, self.message.as_str());
        proof {
            reveal_strlit(": ");
        }
        s
    }

    /// Converts the error into its JSON response shape.
    pub fn payload(&self) -> (p: ErrorPayload)
        ensures
            p.code == self.code,
            p.message@ == self.message@,
    {
        ErrorPayload { code: self.code, message: self.message.clone() }
    }
}

} // verus!
