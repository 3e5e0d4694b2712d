//! The composite operations of a connection, apart from the transport: the
//! list of clients with each client's info, and the list of channels with
//! the clients in them. The caller sends each request that a step names and
//! hands the reply back; a failed command ends the operation there, with no
//! retry.
use crate::channel::{merged, response_channels, ChannelList};
use crate::client::{response_clients, with_infos, ClientList, ClientView};
use crate::command::Request;
use crate::text::views;
use vstd::prelude::*;

verus! {

/// What an operation gathers.
#[derive(Clone, Copy, Debug, PartialEq, Eq, Structural)]
pub enum Goal {
    /// The clients, each updated with its `clientinfo`.
    ClientsWithInfo,
    /// The channels, each with the clients in it.
    ChannelsWithClients,
}

/// Which reply an operation waits for.
#[derive(Clone, Copy, Debug, PartialEq, Eq, Structural)]
pub enum Stage {
    /// The reply to `clientlist`.
    Clients,
    /// The reply to `clientinfo` for the next client.
    Infos,
    /// The reply to `channellist`.
    Channels,
    /// None: the operation is over.
    Finished,
}

/// What the caller is to do next.
#[derive(Debug)]
pub enum Next {
    /// Send this request and hand its reply to `on_reply`.
    Send(Request),
    /// The operation is over with these clients.
    Clients(ClientList),
    /// The operation is over with these channels.
    Channels(ChannelList),
}

/// The state of one composite operation.
#[derive(Debug)]
pub struct Query {
    goal: Goal,
    stage: Stage,
    clients: ClientList,
    infos: Vec<String>,
}

/// What an operation holds: its goal and stage, the clients of the
/// `clientlist` reply, and the `clientinfo` replies so far.
pub ghost struct QueryView {
    pub goal: Goal,
    pub stage: Stage,
    pub clients: Seq<ClientView>,
    pub infos: Seq<Seq<char>>,
}

impl View for Query {
    type V = QueryView;

    closed spec fn view(&self) -> QueryView {
        QueryView {
            goal: self.goal,
            stage: self.stage,
            clients: self.clients@,
            infos: views(self.infos@),
        }
    }
}

impl Query {
    /// Starts an operation: its state, and the first request to send,
    /// `clientlist`.
    pub fn start(goal: Goal) -> (r: (Query, Request))
        ensures
            r.0@ == (QueryView {
                goal,
                stage: Stage::Clients,
                clients: Seq::empty(),
                infos: Seq::empty(),
            }),
            r.1 is ClientList,
    {
        let q = Query { goal, stage: Stage::Clients, clients: ClientList::new(), infos: Vec::new() };
        assert(q@.infos =~= Seq::<Seq<char>>::empty());
        (q, Request::ClientList)
    }

    pub fn stage(&self) -> (r: Stage)
        ensures
            r == self@.stage,
    {
        self.stage
    }

    /// Whether the operation waits for a reply.
    pub fn is_running(&self) -> (r: bool)
        ensures
            r == (self@.stage != Stage::Finished),
    {
        match self.stage {
            Stage::Finished => false,
            _ => true,
        }
    }

    /// After the client list or the last client's info: the clients, or
    /// the request for the channels.
    fn after_clients(&mut self) -> (r: Next)
        requires
            old(self)@.stage == Stage::Clients || old(self)@.stage == Stage::Infos,
        ensures
            old(self)@.goal == Goal::ClientsWithInfo ==> final(self)@.stage == Stage::Finished && (
            r matches Next::Clients(l)) && r->Clients_0@ == old(self)@.clients,
            old(self)@.goal == Goal::ChannelsWithClients ==> final(self)@ == (QueryView {
                stage: Stage::Channels,
                ..old(self)@
            }) && r matches Next::Send(Request::ChannelList),
    {
        match self.goal {
            Goal::ClientsWithInfo => {
                let mut done = ClientList::new();
                std::mem::swap(&mut done, &mut self.clients);
                self.stage = Stage::Finished;
                Next::Clients(done)
            },
            Goal::ChannelsWithClients => {
                self.stage = Stage::Channels;
                Next::Send(Request::ChannelList)
            },
        }
    }

    /// Takes the reply to the request of the last step.
    ///
    /// The reply to `clientlist` gives the clients; `clientinfo` is then
    /// asked for each of them in order, and each client is updated from its
    /// reply. The reply to `channellist` gives the channels, and each client
    /// is put into the channels whose id is its channel id.
    pub fn on_reply(&mut self, reply: &str) -> (r: Next)
        requires
            old(self)@.stage != Stage::Finished,
        ensures
            old(self)@.stage == Stage::Clients ==> clients_step(
                old(self)@.goal,
                response_clients(reply@),
                final(self)@,
                r,
            ),
            old(self)@.stage == Stage::Infos ==> infos_step(
                old(self)@,
                old(self)@.infos.push(reply@),
                final(self)@,
                r,
            ),
            old(self)@.stage == Stage::Channels ==> final(self)@.stage == Stage::Finished && (
            r matches Next::Channels(l)) && r->Channels_0@ == merged(
                response_channels(reply@),
                old(self)@.clients,
            ),
    {
        match self.stage {
            Stage::Clients => {
                self.clients = ClientList::from_response(reply);
                self.infos = Vec::new();
                assert(views(self.infos@) =~= Seq::<Seq<char>>::empty());
                if self.clients.len() > 0 {
                    self.stage = Stage::Infos;
                    Next::Send(Request::ClientInfo(self.clients.as_vec()[0].clid))
                } else {
                    self.after_clients()
                }
            },
            Stage::Infos => {
                let ghost before = self@;
                self.infos.push(String::from_str(reply));
                assert(views(self.infos@) =~= before.infos.push(reply@));
                let k = self.infos.len();
                if k < self.clients.len() {
                    Next::Send(Request::ClientInfo(self.clients.as_vec()[k].clid))
                } else {
                    self.clients.merge_infos(&self.infos);
                    self.after_clients()
                }
            },
            _ => {
                let mut channels = ChannelList::from_response(reply);
                channels.merge_clients(&self.clients);
                self.stage = Stage::Finished;
                Next::Channels(channels)
            },
        }
    }
}

/// How an operation goes on after the reply to `clientlist`, which gives
/// the clients `cs`: the info of the first client is asked for; where there
/// is none, the operation ends with no clients, or asks for the channels.
pub open spec fn clients_step(goal: Goal, cs: Seq<ClientView>, next: QueryView, r: Next) -> bool {
    if cs.len() > 0 {
        next == (QueryView { goal, stage: Stage::Infos, clients: cs, infos: Seq::empty() }) && (
        r matches Next::Send(Request::ClientInfo(id)) && id == cs[0].clid)
    } else if goal == Goal::ClientsWithInfo {
        next.stage == Stage::Finished && (r matches Next::Clients(l) && l@ == cs)
    } else {
        next == (QueryView { goal, stage: Stage::Channels, clients: cs, infos: Seq::empty() })
            && r matches Next::Send(Request::ChannelList)
    }
}

/// How an operation `q` goes on after a reply to `clientinfo`, its replies
/// being `infos` with that one: the info of the next client is asked for;
/// after the last one the clients are updated from their infos, and the
/// operation ends with them or asks for the channels.
pub open spec fn infos_step(q: QueryView, infos: Seq<Seq<char>>, next: QueryView, r: Next) -> bool {
    if infos.len() < q.clients.len() {
        next == (QueryView { infos, ..q }) && (r matches Next::Send(Request::ClientInfo(id)) && id
            == q.clients[infos.len() as int].clid)
    } else if q.goal == Goal::ClientsWithInfo {
        next.stage == Stage::Finished && (r matches Next::Clients(l) && l@ == with_infos(
            q.clients,
            infos,
        ))
    } else {
        next == (QueryView {
            stage: Stage::Channels,
            clients: with_infos(q.clients, infos),
            infos,
            ..q
        }) && r matches Next::Send(Request::ChannelList)
    }
}

} // verus!
