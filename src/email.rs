use vstd::prelude::*;

verus! {

/// A common pattern for e-mail addresses: a local part, unquoted or quoted,
/// then `@`, then a domain name or a bracketed address literal.
pub const EMAIL_PATTERN: &'static str = r#"(?:[a-z0-9!#$%&'*+/=?^_`{|}~-]+(?:\.[a-z0-9!#$%&'*+/=?^_`{|}~-]+)*|"(?:[\x01-\x08\x0b\x0c\x0e-\x1f\x21\x23-\x5b\x5d-\x7f]|\\[\x01-\x09\x0b\x0c\x0e-\x7f])*")@(?:(?:[a-z0-9](?:[a-z0-9-]*[a-z0-9])?\.)+[a-z0-9](?:[a-z0-9-]*[a-z0-9])?|\[(?:(?:(2(5[0-5]|[0-4][0-9])|1[0-9][0-9]|[1-9]?[0-9]))\.){3}(?:(2(5[0-5]|[0-4][0-9])|1[0-9][0-9]|[1-9]?[0-9])|[a-z0-9-]*[a-z0-9]:(?:[\x01-\x08\x0b\x0c\x0e-\x1f\x21-\x5a\x53-\x7f]|\\[\x01-\x09\x0b\x0c\x0e-\x7f])+)\])"#;

/// Whether the text `s` holds a match of `EMAIL_PATTERN`.
pub uninterp spec fn has_email_match(s: Seq<char>) -> bool;

/// Relies on regex's `Regex::new` and `Regex::is_match`: whether `s`
/// holds a match of `EMAIL_PATTERN` (which compiles, so `new` does not fail).
#[verifier::external_body]
fn email_matches(s: &str) -> (r: bool)
    ensures
        r == has_email_match(s@),
{
    regex::Regex::new(EMAIL_PATTERN).unwrap().is_match(s)
}

/// Text that holds an e-mail address.
#[derive(Debug, PartialEq, Eq, PartialOrd, Ord, Hash, Clone)]
pub struct EmailString(String);

/// The text holds no e-mail address.
#[derive(Debug, PartialEq, Eq, Structural)]
pub struct InvalidEmail;

impl EmailString {
    /// The text.
    pub closed spec fn text(&self) -> Seq<char> {
        self.0@
    }

    /// `email`, accepted where it holds an e-mail address.
    pub fn new(email: &str) -> (r: Result<EmailString, InvalidEmail>)
        ensures
            has_email_match(email@) <==> r is Ok,
            r is Ok ==> r.unwrap().text() == email@,
    {
        let matched = email_matches(email);
        EmailString::accept(email.to_owned(), matched)
    }

    /// `email`, accepted where `matched` says that it holds an e-mail
    /// address.
    pub fn accept(email: String, matched: bool) -> (r: Result<EmailString, InvalidEmail>)
        ensures
            matched <==> r is Ok,
            r is Ok ==> r.unwrap().text() == email@,
    {
        if matched {
            Ok(EmailString(email))
        } else {
            Err(InvalidEmail)
        }
    }

    /// The text.
    pub fn as_str(&self) -> (r: &str)
        ensures
            r@ == self.text(),
    {
        self.0.as_str()
    }
}

impl TryFrom<String> for EmailString {
    type Error = InvalidEmail;

    /// `email`, accepted where it holds an e-mail address.
    fn try_from(email: String) -> (r: Result<EmailString, InvalidEmail>) {
        if email_matches(email.as_str()) {
            Ok(EmailString(email))
        } else {
            Err(InvalidEmail)
        }
    }
}

impl vstd::std_specs::convert::TryFromSpecImpl<String> for EmailString {
    open spec fn obeys_try_from_spec() -> bool {
        true
    }

    closed spec fn try_from_spec(email: String) -> Result<EmailString, InvalidEmail> {
        if has_email_match(email@) {
            Ok(EmailString(email))
        } else {
            Err(InvalidEmail)
        }
    }
}

impl std::borrow::Borrow<str> for EmailString {
    fn borrow(&self) -> &str {
        self.0.as_str()
    }
}

} // verus!
