//! Commands that can be sent to a ServerQuery server.
use crate::error::Error;
use crate::map::{record_map, to_map};
use crate::text::{push_decimal, push_signed_decimal, decimal, signed_decimal};
use vstd::prelude::*;

verus! {

/// Anything that can be sent as the text of one command.
pub trait Command {
    /// The text of the command.
    spec fn text(&self) -> Seq<char>;

    fn string(&self) -> (r: String)
        ensures
            r@ == self.text(),
    ;
}

impl<'a> Command for &'a str {
    open spec fn text(&self) -> Seq<char> {
        (*self)@
    }

    fn string(&self) -> (r: String) {
        String::from_str(*self)
    }
}

impl Command for String {
    open spec fn text(&self) -> Seq<char> {
        self@
    }

    fn string(&self) -> (r: String) {
        self.clone()
    }
}

/// The commands that the library's operations send.
#[derive(Debug)]
pub enum Request {
    /// `use <id>`: select the virtual server.
    UseServer(u64),
    /// `login <name> <password>`.
    Login(String, String),
    /// `whoami`: the query client's own record.
    WhoAmI,
    /// `clientupdate clid=<id> client_nickname=<name>`, with the id as the
    /// server wrote it.
    SetNickname(String, String),
    /// `clientlist`.
    ClientList,
    /// `clientinfo clid=<id>`.
    ClientInfo(i64),
    /// `channellist`.
    ChannelList,
    /// `quit`.
    Quit,
}

/// The text of a request.
pub open spec fn request_text(r: &Request) -> Seq<char> {
    match r {
        Request::UseServer(id) => "use "@ + decimal(*id as nat),
        Request::Login(name, password) => "login "@ + name@ + " "@ + password@,
        Request::WhoAmI => "whoami"@,
        Request::SetNickname(id, name) => "clientupdate clid="@ + id@ + " client_nickname="@
            + name@,
        Request::ClientList => "clientlist"@,
        Request::ClientInfo(clid) => "clientinfo clid="@ + signed_decimal(*clid as int),
        Request::ChannelList => "channellist"@,
        Request::Quit => "quit"@,
    }
}

impl Command for Request {
    open spec fn text(&self) -> Seq<char> {
        request_text(self)
    }

    fn string(&self) -> (r: String) {
        match self {
            Request::UseServer(id) => {
                let mut out = String::from_str("use ");
                push_decimal(&mut out, *id);
                out
            },
            Request::Login(name, password) => {
                let mut out = String::from_str("login ");
                out.append(name.as_str());
                out.append(" ");
                out.append(password.as_str());
                out
            },
            Request::WhoAmI => String::from_str("whoami"),
            Request::SetNickname(id, name) => {
                let mut out = String::from_str("clientupdate clid=");
                out.append(id.as_str());
                out.append(" client_nickname=");
                out.append(name.as_str());
                out
            },
            Request::ClientList => String::from_str("clientlist"),
            Request::ClientInfo(clid) => {
                let mut out = String::from_str("clientinfo clid=");
                push_signed_decimal(&mut out, *clid);
                out
            },
            Request::ChannelList => String::from_str("channellist"),
            Request::Quit => String::from_str("quit"),
        }
    }
}

impl Request {
    /// The request that renames the query client to `nickname`, from the
    /// response to `whoami`: an error where that response has no
    /// `client_id` field.
    pub fn set_nickname(whoami: &str, nickname: &str) -> (r: Result<Request, Error>)
        ensures
            record_map(whoami@).contains_key("client_id"@) ==> (r matches Ok(
                Request::SetNickname(id, name),
            ) && id@ == record_map(whoami@)["client_id"@] && name@ == nickname@),
            !record_map(whoami@).contains_key("client_id"@) ==> (r matches Err(
                Error::Other(_),
            )),
    {
        let map = to_map(whoami);
        match map.get("client_id") {
            Some(id) => Ok(Request::SetNickname(id.clone(), String::from_str(nickname))),
            None => Err(Error::Other(String::from_str("error at collecting client_id"))),
        }
    }
}

} // verus!
