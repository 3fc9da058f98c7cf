use vstd::prelude::*;

verus! {

/// An error with a machine-readable code, an HTTP-like status and a
/// message; built step by step.
#[derive(Debug, Clone)]
pub struct Error {
    code: String,
    status: u16,
    message: String,
}

impl Error {
    pub closed spec fn code_of(&self) -> Seq<char> {
        self.code@
    }

    pub closed spec fn status_of(&self) -> u16 {
        self.status
    }

    pub closed spec fn message_of(&self) -> Seq<char> {
        self.message@
    }

    /// An error with code `code`, status 500 and the default message.
    pub fn new(code: &str) -> (r: Error)
        ensures
            r.code_of() == code@,
            r.status_of() == 500,
            r.message_of() == "Unknown error has happened."@,
    {
        let d = Error::default();
        Error { code: code.to_owned(), ..d }
    }

    /// Sets the status; hands the error back for further steps.
    pub fn status(&mut self, s: u16) -> (r: &mut Error)
        ensures
            r.status_of() == s,
            r.code_of() == old(self).code_of(),
            r.message_of() == old(self).message_of(),
            *final(self) == *final(r),
    {
        self.status = s;
        self
    }

    /// Sets the message; hands the error back for further steps.
    pub fn message(&mut self, m: &str) -> (r: &mut Error)
        ensures
            r.message_of() == m@,
            r.code_of() == old(self).code_of(),
            r.status_of() == old(self).status_of(),
            *final(self) == *final(r),
    {
        self.message = m.to_owned();
        self
    }

    /// The code.
    pub fn code(&self) -> (r: &str)
        ensures
            r@ == self.code_of(),
    {
        self.code.as_str()
    }

    /// The status.
    pub fn get_status(&self) -> (r: u16)
        ensures
            r == self.status_of(),
    {
        self.status
    }

    /// The message.
    pub fn get_message(&self) -> (r: &str)
        ensures
            r@ == self.message_of(),
    {
        self.message.as_str()
    }
}

impl Default for Error {
    /// Code `UNKNOWN`, status 500, message `Unknown error has happened.`.
    fn default() -> (r: Error)
        ensures
            r.code_of() == "UNKNOWN"@,
            r.status_of() == 500,
            r.message_of() == "Unknown error has happened."@,
    {
        Error {
            code: "UNKNOWN".to_owned(),
            status: 500,
            message: "Unknown error has happened.".to_owned(),
        }
    }
}

} // verus!
