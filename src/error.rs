//! The protocol's error model: the status line `error id=<n> msg=<text>`
//! that ends every response, and the library's error type.
use crate::escaping::{unescape, unescaped};
use crate::text::{decimal, parse_u32, pieces, push_decimal, same_text, split, u32_of, views};
use crate::text::Separator;
use vstd::prelude::*;

verus! {

/// Declares `std::io::Error`, the standard library's transport failure, so
/// that `Error::Io` can carry one. Nothing here looks inside it.
#[verifier::external_type_specification]
#[verifier::external_body]
pub struct ExIoError(std::io::Error);

/// What a status line says: its id, and its message without escaping.
pub ghost struct Status {
    pub id: u32,
    pub msg: Seq<char>,
}

pub open spec fn word_error() -> Seq<char> {
    seq!['e', 'r', 'r', 'o', 'r']
}

pub open spec fn word_id() -> Seq<char> {
    seq!['i', 'd']
}

pub open spec fn word_msg() -> Seq<char> {
    seq!['m', 's', 'g']
}

/// The id and the raw (escaped) message of the status line `s`, or none
/// where `s` is not a status line. The line is split at whitespace and at
/// `=`; its first five pieces must be `error`, `id`, a `u32`, `msg` and the
/// message. What follows the fifth separator is not read.
pub open spec fn status_of(s: Seq<char>) -> Option<(u32, Seq<char>)> {
    let ps = pieces(s, Separator::SpaceOrEquals);
    if ps.len() >= 5 && ps[0] == word_error() && ps[1] == word_id() && u32_of(ps[2]) is Some
        && ps[3] == word_msg() {
        Some((u32_of(ps[2])->0, ps[4]))
    } else {
        None
    }
}

/// The status that the line `s` holds, its message unescaped.
pub open spec fn parsed_status(s: Seq<char>) -> Option<Status> {
    match status_of(s) {
        Some((id, raw)) => Some(Status { id, msg: unescaped(raw) }),
        None => None,
    }
}

/// The one-line form `error id=<id> msg=<msg>` of a status.
pub open spec fn status_text(st: Status) -> Seq<char> {
    word_error() + seq![' '] + word_id() + seq!['='] + decimal(st.id as nat) + seq![' ']
        + word_msg() + seq!['='] + st.msg
}

/// A status line of the protocol: id 0 means success.
#[derive(Debug)]
pub struct SQError {
    id: u32,
    msg: String,
    full_msg: String,
}

impl View for SQError {
    type V = Status;

    closed spec fn view(&self) -> Status {
        Status { id: self.id, msg: self.msg@ }
    }
}

impl SQError {
    #[verifier::type_invariant]
    spec fn inv(&self) -> bool {
        self.full_msg@ == status_text(self@)
    }

    pub fn new(id: u32, msg: String) -> (r: SQError)
        ensures
            r@ == (Status { id, msg: msg@ }),
    {
        proof {
            reveal_strlit("error id=");
            reveal_strlit(" msg=");
        }
        let mut full_msg = String::from_str("error id=");
        push_decimal(&mut full_msg, id as u64);
        full_msg.append(" msg=");
        full_msg.append(msg.as_str());
        assert(full_msg@ =~= status_text(Status { id, msg: msg@ }));
        SQError { id, msg, full_msg }
    }

    /// The success status: id 0, message `ok`.
    pub fn ok() -> (r: SQError)
        ensures
            r@ == (Status { id: 0, msg: seq!['o', 'k'] }),
    {
        proof {
            reveal_strlit("ok");
            assert("ok"@ =~= seq!['o', 'k']);
        }
        SQError::new(0, String::from_str("ok"))
    }

    /// Reads a status line: none where `s` is not one.
    pub fn parse(s: &str) -> (r: Option<SQError>)
        ensures
            match parsed_status(s@) {
                Some(st) => r matches Some(e) && e@ == st,
                None => r is None,
            },
    {
        proof {
            reveal_strlit("error");
            reveal_strlit("id");
            reveal_strlit("msg");
            assert("error"@ =~= word_error());
            assert("id"@ =~= word_id());
            assert("msg"@ =~= word_msg());
        }
        let parts = split(s, Separator::SpaceOrEquals);
        let ghost ps = views(parts@);
        assert(ps.len() == parts@.len());
        if parts.len() < 5 {
            return None;
        }
        assert(ps[0] == parts@[0]@ && ps[1] == parts@[1]@ && ps[2] == parts@[2]@);
        assert(ps[3] == parts@[3]@ && ps[4] == parts@[4]@);
        if !same_text(parts[0].as_str(), "error") {
            return None;
        }
        if !same_text(parts[1].as_str(), "id") {
            return None;
        }
        let id = match parse_u32(parts[2].as_str()) {
            Some(id) => id,
            None => {
                return None;
            },
        };
        if !same_text(parts[3].as_str(), "msg") {
            return None;
        }
        Some(SQError::new(id, unescape(parts[4].as_str())))
    }

    /// Reads a line of a response. `Ok(false)` where it is no status line,
    /// `Ok(true)` where it is a status line with id 0, and the status as an
    /// error where it is one with another id.
    pub fn parse_is_ok(s: &str) -> (r: Result<bool, Error>)
        ensures
            match parsed_status(s@) {
                None => r == Ok::<bool, Error>(false),
                Some(st) => if st.id == 0 {
                    r == Ok::<bool, Error>(true)
                } else {
                    r matches Err(Error::SQ(e)) && e@ == st
                },
            },
    {
        let err = match SQError::parse(s) {
            None => {
                return Ok(false);
            },
            Some(err) => err,
        };
        if err == SQError::ok() {
            Ok(true)
        } else {
            Err(Error::SQ(err))
        }
    }

    pub fn id(&self) -> (r: u32)
        ensures
            r == self@.id,
    {
        self.id
    }

    pub fn msg(&self) -> (r: String)
        ensures
            r@ == self@.msg,
    {
        self.msg.clone()
    }

    /// The one-line form `error id=<id> msg=<msg>`.
    pub fn description(&self) -> (r: String)
        ensures
            r@ == status_text(self@),
    {
        proof {
            use_type_invariant(self);
        }
        self.full_msg.clone()
    }
}

/// Two statuses are equal when their ids are.
impl PartialEq for SQError {
    fn eq(&self, other: &SQError) -> (r: bool)
        ensures
            r == (self@.id == other@.id),
    {
        self.id == other.id
    }
}

impl vstd::std_specs::cmp::PartialEqSpecImpl for SQError {
    open spec fn obeys_eq_spec() -> bool {
        true
    }

    open spec fn eq_spec(&self, other: &SQError) -> bool {
        self@.id == other@.id
    }
}

impl Eq for SQError {

}

/// A failure of the library.
#[derive(Debug)]
pub enum Error {
    /// The transport failed.
    Io(std::io::Error),
    /// The server answered with a status line whose id is not 0.
    SQ(SQError),
    /// A local failure: an empty command, a server that does not speak the
    /// protocol, a field missing from a response.
    Other(String),
}

impl Error {
    pub fn is_io(&self) -> (r: bool)
        ensures
            r == (self is Io),
    {
        match self {
            Error::Io(_) => true,
            _ => false,
        }
    }

    pub fn is_sq(&self) -> (r: bool)
        ensures
            r == (self is SQ),
    {
        match self {
            Error::SQ(_) => true,
            _ => false,
        }
    }

    pub fn is_other(&self) -> (r: bool)
        ensures
            r == (self is Other),
    {
        match self {
            Error::Other(_) => true,
            _ => false,
        }
    }
}

impl From<std::io::Error> for Error {
    fn from(e: std::io::Error) -> (r: Error) {
        Error::Io(e)
    }
}

impl vstd::std_specs::convert::FromSpecImpl<std::io::Error> for Error {
    open spec fn obeys_from_spec() -> bool {
        true
    }

    open spec fn from_spec(e: std::io::Error) -> Error {
        Error::Io(e)
    }
}

impl From<SQError> for Error {
    fn from(e: SQError) -> (r: Error) {
        Error::SQ(e)
    }
}

impl vstd::std_specs::convert::FromSpecImpl<SQError> for Error {
    open spec fn obeys_from_spec() -> bool {
        true
    }

    open spec fn from_spec(e: SQError) -> Error {
        Error::SQ(e)
    }
}

impl From<String> for Error {
    fn from(s: String) -> (r: Error) {
        Error::Other(s)
    }
}

impl vstd::std_specs::convert::FromSpecImpl<String> for Error {
    open spec fn obeys_from_spec() -> bool {
        true
    }

    open spec fn from_spec(s: String) -> Error {
        Error::Other(s)
    }
}

impl<'a> From<&'a str> for Error {
    fn from(s: &'a str) -> (r: Error)
        ensures
            r matches Error::Other(m) && m@ == s@,
    {
        Error::Other(String::from_str(s))
    }
}

/// A spec function cannot make a `String` from a `&str`, so the result of
/// this conversion is stated on `from` itself.
impl<'a> vstd::std_specs::convert::FromSpecImpl<&'a str> for Error {
    open spec fn obeys_from_spec() -> bool {
        false
    }

    closed spec fn from_spec(s: &'a str) -> Error {
        arbitrary()
    }
}

} // verus!
