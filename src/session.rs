//! The protocol engine of a connection, apart from the transport: the
//! handshake, and the framing of each command's response. The caller owns
//! the stream: it writes what `send` returns, reads one line whenever a step
//! asks for one, and hands it to `receive`.
use crate::command::Command;
use crate::error::{parsed_status, Error, SQError};
use crate::text::{
    same_text, trim_leading_controls, trim_line_ends, without_leading_controls, without_line_ends,
};
use vstd::prelude::*;

verus! {

/// Where a session stands.
#[derive(Clone, Copy, Debug, PartialEq, Eq, Structural)]
pub enum Phase {
    /// Connected; the server's first line, `TS3`, is due.
    Banner,
    /// The server's greeting line is due.
    Greeting,
    /// No command is in flight.
    Ready,
    /// A command was sent; lines of its response are due.
    Awaiting,
    /// The handshake failed, or the session was closed.
    Closed,
}

/// What the caller is to do next.
#[derive(Debug)]
pub enum Step {
    /// Read one more line and hand it to `receive`.
    ReadLine,
    /// The handshake is done: the session takes commands.
    Ready,
    /// The command succeeded; its data lines, joined with nothing between.
    Reply(String),
    /// The handshake or the command failed.
    Failed(Error),
}

/// The state of one connection's protocol.
#[derive(Debug)]
pub struct Session {
    phase: Phase,
    buffer: String,
}

/// What a session holds: its phase, and the data lines of the response in
/// flight so far.
pub ghost struct SessionView {
    pub phase: Phase,
    pub buffer: Seq<char>,
}

impl View for Session {
    type V = SessionView;

    closed spec fn view(&self) -> SessionView {
        SessionView { phase: self.phase, buffer: self.buffer@ }
    }
}

/// Whether a session in phase `p` waits for a line from the server.
pub open spec fn awaits_line(p: Phase) -> bool {
    p == Phase::Banner || p == Phase::Greeting || p == Phase::Awaiting
}

/// What the server's first line must be, once its line terminators are
/// trimmed.
pub open spec fn banner() -> Seq<char> {
    seq!['T', 'S', '3']
}

impl Session {
    /// A session that has just connected and waits for the banner.
    pub fn new() -> (r: Session)
        ensures
            r@ == (SessionView { phase: Phase::Banner, buffer: Seq::empty() }),
    {
        Session { phase: Phase::Banner, buffer: String::new() }
    }

    pub fn phase(&self) -> (r: Phase)
        ensures
            r == self@.phase,
    {
        self.phase
    }

    /// Whether the session waits for a line from the server.
    pub fn awaits_line(&self) -> (r: bool)
        ensures
            r == awaits_line(self@.phase),
    {
        match self.phase {
            Phase::Banner | Phase::Greeting | Phase::Awaiting => true,
            _ => false,
        }
    }

    /// Whether the session takes a command.
    pub fn is_ready(&self) -> (r: bool)
        ensures
            r == (self@.phase == Phase::Ready),
    {
        match self.phase {
            Phase::Ready => true,
            _ => false,
        }
    }

    /// Starts a command: the line to write to the server, the command's text
    /// and a newline. An empty command is refused, and the session stays as
    /// it was.
    pub fn send<C: Command>(&mut self, command: &C) -> (r: Result<String, Error>)
        requires
            old(self)@.phase == Phase::Ready,
        ensures
            command.text().len() == 0 ==> (r matches Err(Error::Other(_))) && final(self)@ == old(
                self,
            )@,
            command.text().len() > 0 ==> (r matches Ok(line)) && r->Ok_0@ == command.text()
                + seq!['\n'] && final(self)@ == (SessionView {
                phase: Phase::Awaiting,
                buffer: Seq::empty(),
            }),
    {
        proof {
            reveal_strlit("\n");
        }
        let mut line = command.string();
        if line.as_str().unicode_len() == 0 {
            return Err(Error::Other(String::from_str("no command")));
        }
        line.append("\n");
        self.phase = Phase::Awaiting;
        self.buffer = String::new();
        Ok(line)
    }

    /// Takes one line from the server.
    ///
    /// While the banner is due, the line must read exactly `TS3` once the
    /// carriage returns and line feeds at its ends are trimmed, or the
    /// session closes with an error. The greeting line that follows is
    /// ignored, and the session is then ready. While a response is due, the
    /// line, without the control characters at its start, is a status line
    /// or data: data is added to the response; a status line with id 0 ends
    /// the command with the data so far, and one with another id ends it
    /// with that status as the error.
    pub fn receive(&mut self, line: &str) -> (r: Step)
        requires
            awaits_line(old(self)@.phase),
        ensures
            old(self)@.phase == Phase::Banner ==> if without_line_ends(line@) == banner() {
                final(self)@ == (SessionView { phase: Phase::Greeting, ..old(self)@ })
                    && r is ReadLine
            } else {
                final(self)@ == (SessionView { phase: Phase::Closed, ..old(self)@ }) && (
                r matches Step::Failed(Error::Other(_)))
            },
            old(self)@.phase == Phase::Greeting ==> final(self)@ == (SessionView {
                phase: Phase::Ready,
                ..old(self)@
            }) && r is Ready,
            old(self)@.phase == Phase::Awaiting ==> response_step(
                old(self)@.buffer,
                without_leading_controls(line@),
                final(self)@,
                r,
            ),
    {
        match self.phase {
            Phase::Banner => {
                proof {
                    reveal_strlit("TS3");
                    assert("TS3"@ =~= banner());
                }
                if same_text(trim_line_ends(line).as_str(), "TS3") {
                    self.phase = Phase::Greeting;
                    Step::ReadLine
                } else {
                    self.phase = Phase::Closed;
                    Step::Failed(
                        Error::Other(String::from_str("the given server is not a TS3 server")),
                    )
                }
            },
            Phase::Greeting => {
                self.phase = Phase::Ready;
                Step::Ready
            },
            _ => {
                let data = trim_leading_controls(line);
                match SQError::parse_is_ok(data.as_str()) {
                    Ok(false) => {
                        self.buffer.append(data.as_str());
                        Step::ReadLine
                    },
                    Ok(true) => {
                        let mut reply = String::new();
                        std::mem::swap(&mut reply, &mut self.buffer);
                        self.phase = Phase::Ready;
                        Step::Reply(reply)
                    },
                    Err(e) => {
                        self.buffer = String::new();
                        self.phase = Phase::Ready;
                        Step::Failed(e)
                    },
                }
            },
        }
    }

    /// Closes the session; it takes no further command.
    pub fn close(&mut self)
        ensures
            final(self)@ == (SessionView { phase: Phase::Closed, ..old(self)@ }),
    {
        self.phase = Phase::Closed;
    }
}

/// How a session with the response `buffer` so far goes on after the line
/// `data` (its leading control characters removed).
pub open spec fn response_step(buffer: Seq<char>, data: Seq<char>, next: SessionView, r: Step) -> bool {
    match parsed_status(data) {
        None => next == (SessionView { phase: Phase::Awaiting, buffer: buffer + data })
            && r is ReadLine,
        Some(st) => next == (SessionView { phase: Phase::Ready, buffer: Seq::empty() }) && if st.id
            == 0 {
            r matches Step::Reply(reply) && reply@ == buffer
        } else {
            r matches Step::Failed(Error::SQ(e)) && e@ == st
        },
    }
}

} // verus!
