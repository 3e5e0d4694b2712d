//! A client of the server, and the list that a `clientlist` response gives.
use crate::error::Error;
use crate::escaping::{unescape, unescaped};
use crate::map::{record_map, to_map, update_from_map, updates, StringMap};
use crate::text::{
    decimal, i64_of, pieces, push_decimal, push_signed_decimal, signed_decimal, split, views,
    Separator,
};
use vstd::prelude::*;

verus! {

/// What a client holds.
pub ghost struct ClientView {
    pub clid: i64,
    pub cid: i64,
    pub client_database_id: i64,
    pub client_nickname: Seq<char>,
    pub client_type: i64,
    pub connection_connected_time: i64,
}

/// The client with every number 0 and an empty nickname.
pub open spec fn blank_client() -> ClientView {
    ClientView {
        clid: 0,
        cid: 0,
        client_database_id: 0,
        client_nickname: Seq::empty(),
        client_type: 0,
        connection_connected_time: 0,
    }
}

/// A number field after an update from `map` under `key`.
pub open spec fn number_field(old: i64, map: Map<Seq<char>, Seq<char>>, key: Seq<char>) -> i64 {
    if updates::<i64>(map, key) {
        i64_of(map[key])->0
    } else {
        old
    }
}

/// A text field after an update from `map` under `key`, unescaped afterwards
/// whether it was updated or not.
pub open spec fn text_field(old: Seq<char>, map: Map<Seq<char>, Seq<char>>, key: Seq<char>) -> Seq<
    char,
> {
    if map.contains_key(key) {
        unescaped(map[key])
    } else {
        unescaped(old)
    }
}

/// A client after an update of each of its fields from `map`.
pub open spec fn hydrated_client(c: ClientView, map: Map<Seq<char>, Seq<char>>) -> ClientView {
    ClientView {
        clid: number_field(c.clid, map, "clid"@),
        cid: number_field(c.cid, map, "cid"@),
        client_database_id: number_field(c.client_database_id, map, "client_database_id"@),
        client_nickname: text_field(c.client_nickname, map, "client_nickname"@),
        client_type: number_field(c.client_type, map, "client_type"@),
        connection_connected_time: number_field(
            c.connection_connected_time,
            map,
            "connection_connected_time"@,
        ),
    }
}

/// Two digits at least, with a leading zero.
pub open spec fn padded(n: nat) -> Seq<char> {
    if n < 10 {
        seq!['0'] + decimal(n)
    } else {
        decimal(n)
    }
}

/// How long a client has been connected, from the milliseconds: the whole
/// seconds as `hh:mm:ss`, as `mm:ss` under an hour, and as the bare seconds
/// under a minute. The divisions truncate toward zero, so a negative time
/// shows only its seconds within the minute, negated.
pub open spec fn duration_text(ms: int) -> Seq<char> {
    if ms >= 0 {
        let total = ms / 1000;
        let hours = total / 3600;
        let minutes = total % 3600 / 60;
        let seconds = total % 60;
        if hours > 0 {
            padded(hours as nat) + seq![':'] + padded(minutes as nat) + seq![':'] + padded(
                seconds as nat,
            )
        } else if minutes > 0 {
            padded(minutes as nat) + seq![':'] + padded(seconds as nat)
        } else {
            decimal(seconds as nat)
        }
    } else {
        signed_decimal(-(((-ms) / 1000) % 60))
    }
}

/// How a client shows: its nickname and its connection time in brackets.
pub open spec fn client_text(c: ClientView) -> Seq<char> {
    c.client_nickname + seq![' ', '('] + duration_text(c.connection_connected_time as int) + seq![
        ')',
    ]
}

/// Appends `n` with two digits at least.
fn push_padded(out: &mut String, n: u64)
    ensures
        final(out)@ == old(out)@ + padded(n as nat),
{
    proof {
        reveal_strlit("0");
    }
    if n < 10 {
        out.append("0");
    }
    push_decimal(out, n);
    assert(final(out)@ =~= old(out)@ + padded(n as nat));
}

/// Appends the connection time `ms` as `duration_text` shows it.
fn push_duration(out: &mut String, ms: i64)
    ensures
        final(out)@ == old(out)@ + duration_text(ms as int),
{
    proof {
        reveal_strlit(":");
    }
    if ms >= 0 {
        let total = (ms as u64) / 1000;
        let hours = total / 3600;
        let minutes = total % 3600 / 60;
        let seconds = total % 60;
        assert(total % 3600 % 60 == total % 60) by (nonlinear_arith);
        if hours > 0 {
            push_padded(out, hours);
            out.append(":");
            push_padded(out, minutes);
            out.append(":");
            push_padded(out, seconds);
        } else if minutes > 0 {
            push_padded(out, minutes);
            out.append(":");
            push_padded(out, seconds);
        } else {
            push_decimal(out, seconds);
        }
        assert(final(out)@ =~= old(out)@ + duration_text(ms as int));
    } else {
        let magnitude: u64 = ((-(ms + 1)) as u64) + 1;
        let seconds = (magnitude / 1000) % 60;
        push_signed_decimal(out, -(seconds as i64));
    }
}

/// A client of the server. Two clients are equal, and ordered, by `clid`.
#[derive(Debug)]
pub struct Client {
    /// The session's id of the client.
    pub clid: i64,
    /// The id of the channel that the client is in.
    pub cid: i64,
    /// The client's id in the server's database.
    pub client_database_id: i64,
    /// The nickname, unescaped.
    pub client_nickname: String,
    /// 0 for a regular client, another number for a query client.
    pub client_type: i64,
    /// How long the client has been connected, in milliseconds.
    pub connection_connected_time: i64,
}

impl View for Client {
    type V = ClientView;

    open spec fn view(&self) -> ClientView {
        ClientView {
            clid: self.clid,
            cid: self.cid,
            client_database_id: self.client_database_id,
            client_nickname: self.client_nickname@,
            client_type: self.client_type,
            connection_connected_time: self.connection_connected_time,
        }
    }
}

impl Clone for Client {
    fn clone(&self) -> (r: Client)
        ensures
            r@ == self@,
    {
        Client {
            clid: self.clid,
            cid: self.cid,
            client_database_id: self.client_database_id,
            client_nickname: self.client_nickname.clone(),
            client_type: self.client_type,
            connection_connected_time: self.connection_connected_time,
        }
    }
}

impl Default for Client {
    fn default() -> (r: Client)
        ensures
            r@ == blank_client(),
    {
        Client {
            clid: 0,
            cid: 0,
            client_database_id: 0,
            client_nickname: String::new(),
            client_type: 0,
            connection_connected_time: 0,
        }
    }
}

impl Client {
    /// A client with the id `client_id` and the nickname `nickname`
    /// (unescaped here), every other number 0.
    pub fn new(client_id: i64, nickname: String) -> (r: Client)
        ensures
            r@ == (ClientView { clid: client_id, client_nickname: unescaped(nickname@), ..blank_client() }),
    {
        let mut client = Client::default();
        client.clid = client_id;
        client.client_nickname = nickname;
        client.unescape();
        client
    }

    /// Whether this is a regular client rather than a query client.
    pub fn is_client(&self) -> (r: bool)
        ensures
            r == (self.client_type == 0),
    {
        self.client_type == 0
    }

    fn unescape(&mut self)
        ensures
            final(self)@ == (ClientView {
                client_nickname: unescaped(old(self).client_nickname@),
                ..old(self)@
            }),
    {
        self.client_nickname = unescape(self.client_nickname.as_str());
    }

    /// A client read from the map of a record.
    pub fn from_map(map: &StringMap) -> (r: Client)
        ensures
            r@ == hydrated_client(blank_client(), map@),
    {
        let mut client = Client::default();
        client.mut_from_map(map);
        client
    }

    /// `client` with its fields updated from `map`.
    pub fn update_from_map(client: Client, map: &StringMap) -> (r: Client)
        ensures
            r@ == hydrated_client(client@, map@),
    {
        let mut client = client.clone();
        client.mut_from_map(map);
        client
    }

    /// Updates every field from `map`, then unescapes the nickname.
    pub fn mut_from_map(&mut self, map: &StringMap)
        ensures
            final(self)@ == hydrated_client(old(self)@, map@),
    {
        update_from_map(map, "clid", &mut self.clid);
        update_from_map(map, "cid", &mut self.cid);
        update_from_map(map, "client_database_id", &mut self.client_database_id);
        update_from_map(map, "client_nickname", &mut self.client_nickname);
        update_from_map(map, "client_type", &mut self.client_type);
        update_from_map(map, "connection_connected_time", &mut self.connection_connected_time);
        self.unescape();
    }

    fn connection_connected_time_string(&self) -> (r: String)
        ensures
            r@ == duration_text(self.connection_connected_time as int),
    {
        let mut out = String::new();
        push_duration(&mut out, self.connection_connected_time);
        assert(out@ =~= duration_text(self.connection_connected_time as int));
        out
    }

    /// The client as it shows: `nickname (connection time)`.
    pub fn to_text(&self) -> (r: String)
        ensures
            r@ == client_text(self@),
    {
        proof {
            reveal_strlit(" (");
            reveal_strlit(")");
        }
        let mut out = self.client_nickname.clone();
        out.append(" (");
        out.append(self.connection_connected_time_string().as_str());
        out.append(")");
        assert(out@ =~= client_text(self@));
        out
    }
}

impl PartialEq for Client {
    fn eq(&self, other: &Client) -> (r: bool)
        ensures
            r == (self.clid == other.clid),
    {
        self.clid == other.clid
    }
}

impl vstd::std_specs::cmp::PartialEqSpecImpl for Client {
    open spec fn obeys_eq_spec() -> bool {
        true
    }

    open spec fn eq_spec(&self, other: &Client) -> bool {
        self.clid == other.clid
    }
}

impl Eq for Client {

}

impl PartialOrd for Client {
    fn partial_cmp(&self, other: &Client) -> (r: Option<core::cmp::Ordering>)
        ensures
            r == Some(compare_ids(self.clid, other.clid)),
    {
        if self.clid < other.clid {
            Some(core::cmp::Ordering::Less)
        } else if self.clid > other.clid {
            Some(core::cmp::Ordering::Greater)
        } else {
            Some(core::cmp::Ordering::Equal)
        }
    }
}

impl vstd::std_specs::cmp::PartialOrdSpecImpl for Client {
    open spec fn obeys_partial_cmp_spec() -> bool {
        true
    }

    open spec fn partial_cmp_spec(&self, other: &Client) -> Option<core::cmp::Ordering> {
        Some(compare_ids(self.clid, other.clid))
    }
}

/// The order of two ids.
pub open spec fn compare_ids(a: i64, b: i64) -> core::cmp::Ordering {
    if a < b {
        core::cmp::Ordering::Less
    } else if a > b {
        core::cmp::Ordering::Greater
    } else {
        core::cmp::Ordering::Equal
    }
}

/// The views of a sequence of clients.
pub open spec fn client_views(v: Seq<Client>) -> Seq<ClientView> {
    v.map_values(|c: Client| c@)
}

/// The records of a response: the pieces between `|`, each read into a map.
pub open spec fn response_maps(s: Seq<char>) -> Seq<Map<Seq<char>, Seq<char>>> {
    pieces(s, Separator::Bar).map_values(|r: Seq<char>| record_map(r))
}

/// The clients of a `clientlist` response: one for each record.
pub open spec fn response_clients(s: Seq<char>) -> Seq<ClientView> {
    response_maps(s).map_values(|m: Map<Seq<char>, Seq<char>>| hydrated_client(blank_client(), m))
}

/// Reads each record of a response into a map.
pub fn response_to_maps(s: &str) -> (r: Vec<StringMap>)
    ensures
        r@.map_values(|m: StringMap| m@) == response_maps(s@),
{
    let records = split(s, Separator::Bar);
    let ghost rs = views(records@);
    let mut maps: Vec<StringMap> = Vec::new();
    let mut i: usize = 0;
    while i < records.len()
        invariant
            rs == views(records@),
            rs == pieces(s@, Separator::Bar),
            i <= records@.len(),
            maps@.map_values(|m: StringMap| m@) == rs.take(i as int).map_values(
                |r: Seq<char>| record_map(r),
            ),
        decreases records@.len() - i,
    {
        let m = to_map(records[i].as_str());
        let ghost prev = maps@.map_values(|m: StringMap| m@);
        assert(rs[i as int] == records@[i as int]@);
        maps.push(m);
        assert(maps@.map_values(|m: StringMap| m@) =~= prev.push(record_map(rs[i as int])));
        assert(rs.take(i + 1).map_values(|r: Seq<char>| record_map(r)) =~= rs.take(
            i as int,
        ).map_values(|r: Seq<char>| record_map(r)).push(record_map(rs[i as int])));
        i = i + 1;
    }
    assert(rs.take(records@.len() as int) =~= rs);
    maps
}

/// The clients `cs`, the one at `i` updated from the record `infos[i]`
/// where there is one.
pub open spec fn with_infos(cs: Seq<ClientView>, infos: Seq<Seq<char>>) -> Seq<ClientView> {
    Seq::new(
        cs.len(),
        |i: int|
            if i < infos.len() {
                hydrated_client(cs[i], record_map(infos[i]))
            } else {
                cs[i]
            },
    )
}

/// The regular clients of `cs`, in order: those whose type is 0.
pub open spec fn regular(cs: Seq<ClientView>) -> Seq<ClientView> {
    cs.filter(|c: ClientView| c.client_type == 0)
}

/// Copies of the regular clients of `cs`, in order.
pub fn regular_clients(cs: &Vec<Client>) -> (r: Vec<Client>)
    ensures
        client_views(r@) == regular(client_views(cs@)),
{
    let ghost all = client_views(cs@);
    let mut kept: Vec<Client> = Vec::new();
    let mut i: usize = 0;
    assert(all.take(0) =~= Seq::<ClientView>::empty());
    while i < cs.len()
        invariant
            all == client_views(cs@),
            i <= all.len(),
            client_views(kept@) == regular(all.take(i as int)),
        decreases all.len() - i,
    {
        assert(all.take(i + 1).drop_last() =~= all.take(i as int));
        assert(all.take(i + 1).last() == cs@[i as int]@);
        proof {
            reveal(Seq::filter);
        }
        if cs[i].is_client() {
            kept.push(cs[i].clone());
            assert(client_views(kept@) =~= client_views(kept@).drop_last().push(all[i as int]));
        }
        assert(client_views(kept@) =~= regular(all.take(i + 1)));
        i = i + 1;
    }
    assert(all.take(all.len() as int) =~= all);
    kept
}

/// The clients of a `clientlist` response, in order.
#[derive(Debug)]
pub struct ClientList(Vec<Client>);

impl View for ClientList {
    type V = Seq<ClientView>;

    closed spec fn view(&self) -> Seq<ClientView> {
        client_views(self.0@)
    }
}

impl ClientList {
    /// An empty list.
    pub fn new() -> (r: ClientList)
        ensures
            r@ == Seq::<ClientView>::empty(),
    {
        ClientList(Vec::new())
    }

    /// The clients of the list.
    pub fn into_inner(self) -> (r: Vec<Client>)
        ensures
            client_views(r@) == self@,
    {
        let ClientList(clients) = self;
        clients
    }

    /// The clients of the list, borrowed.
    pub fn as_vec(&self) -> (r: &Vec<Client>)
        ensures
            client_views(r@) == self@,
    {
        &self.0
    }

    /// The number of clients.
    pub fn len(&self) -> (r: usize)
        ensures
            r == self@.len(),
    {
        self.0.len()
    }

    /// A list of the regular clients of this one, in order.
    pub fn filter_clients(&self) -> (r: ClientList)
        ensures
            r@ == regular(self@),
    {
        ClientList(regular_clients(&self.0))
    }

    /// A list of the clients read from each map, in order.
    pub fn from_maps(maps: &Vec<StringMap>) -> (r: ClientList)
        ensures
            r@ == maps@.map_values(|m: StringMap| hydrated_client(blank_client(), m@)),
    {
        let mut clients: Vec<Client> = Vec::new();
        let mut i: usize = 0;
        while i < maps.len()
            invariant
                i <= maps@.len(),
                client_views(clients@) == maps@.take(i as int).map_values(
                    |m: StringMap| hydrated_client(blank_client(), m@),
                ),
            decreases maps@.len() - i,
        {
            let ghost prev = client_views(clients@);
            let c = Client::from_map(&maps[i]);
            clients.push(c);
            assert(client_views(clients@) =~= prev.push(c@));
            assert(maps@.take(i + 1).map_values(
                |m: StringMap| hydrated_client(blank_client(), m@),
            ) =~= maps@.take(i as int).map_values(
                |m: StringMap| hydrated_client(blank_client(), m@),
            ).push(hydrated_client(blank_client(), maps@[i as int]@)));
            assert(client_views(clients@) =~= maps@.take(i + 1).map_values(
                |m: StringMap| hydrated_client(blank_client(), m@),
            ));
            i = i + 1;
        }
        assert(maps@.take(maps@.len() as int) =~= maps@);
        ClientList(clients)
    }

    /// The list that a `clientlist` response gives: one client for each
    /// record between `|`.
    pub fn from_response(s: &str) -> (r: ClientList)
        ensures
            r@ == response_clients(s@),
    {
        let maps = response_to_maps(s);
        let r = ClientList::from_maps(&maps);
        assert(r@ =~= response_clients(s@));
        r
    }

    /// Updates each client from the record of the reply at its position:
    /// the client at `i` from `replies[i]`, for each `i` that both hold.
    pub fn merge_infos(&mut self, replies: &Vec<String>)
        ensures
            final(self)@ == with_infos(old(self)@, views(replies@)),
    {
        let mut i: usize = 0;
        while i < self.0.len() && i < replies.len()
            invariant
                i <= self@.len(),
                i <= replies@.len(),
                self@.len() == old(self)@.len(),
                forall|j: int|
                    0 <= j < i ==> #[trigger] self@[j] == hydrated_client(
                        old(self)@[j],
                        record_map(replies@[j]@),
                    ),
                forall|j: int| i <= j < self@.len() ==> #[trigger] self@[j] == old(self)@[j],
            decreases self@.len() - i,
        {
            let map = to_map(replies[i].as_str());
            let ghost before = self@;
            self.0[i].mut_from_map(&map);
            assert(self@[i as int] == hydrated_client(before[i as int], map@));
            assert(forall|j: int| 0 <= j < self@.len() && j != i ==> #[trigger] self@[j] == before[j]);
            i = i + 1;
        }
        assert(self@ =~= with_infos(old(self)@, views(replies@)));
    }

    /// The list as it shows: `[ c1, c2, ... ]`, each client as `to_text`
    /// shows it.
    pub fn to_text(&self) -> (r: String)
        ensures
            r@ == seq!['[', ' '] + joined(self@) + seq![' ', ']'],
    {
        proof {
            reveal_strlit("[ ");
            reveal_strlit(", ");
            reveal_strlit(" ]");
        }
        let mut body = String::new();
        let mut i: usize = 0;
        assert(self@.take(0) =~= Seq::<ClientView>::empty());
        while i < self.0.len()
            invariant
                i <= self@.len(),
                body@ == joined(self@.take(i as int)),
            decreases self@.len() - i,
        {
            assert(self@.take(i + 1).drop_last() =~= self@.take(i as int));
            assert(self@.take(i + 1).last() == self.0@[i as int]@);
            let ghost b0 = body@;
            let ghost cs = self@.take(i + 1);
            let text = self.0[i].to_text();
            if i > 0 {
                body.append(", ");
                proof {
                    reveal_strlit(", ");
                }
                assert(body@ + text@ =~= b0 + seq![',', ' '] + client_text(cs.last()));
            } else {
                assert(b0 =~= Seq::<char>::empty());
                assert(cs.len() == 1 && cs[0] == cs.last());
                assert(body@ + text@ =~= client_text(cs[0]));
            }
            body.append(text.as_str());
            i = i + 1;
        }
        assert(self@.take(self@.len() as int) =~= self@);
        let mut out = String::from_str("[ ");
        out.append(body.as_str());
        out.append(" ]");
        assert(out@ =~= seq!['[', ' '] + joined(self@) + seq![' ', ']']);
        out
    }
}

/// The texts of the clients, separated by `, `.
pub open spec fn joined(cs: Seq<ClientView>) -> Seq<char>
    decreases cs.len(),
{
    if cs.len() == 0 {
        Seq::empty()
    } else if cs.len() == 1 {
        client_text(cs[0])
    } else {
        joined(cs.drop_last()) + seq![',', ' '] + client_text(cs.last())
    }
}

/// A client read from one record.
impl std::str::FromStr for Client {
    type Err = Error;

    fn from_str(s: &str) -> (r: Result<Client, Error>)
        ensures
            r matches Ok(c) && c@ == hydrated_client(blank_client(), record_map(s@)),
    {
        Ok(Client::from_map(&to_map(s)))
    }
}

/// The list that a `clientlist` response gives.
impl std::str::FromStr for ClientList {
    type Err = Error;

    fn from_str(s: &str) -> (r: Result<ClientList, Error>)
        ensures
            r matches Ok(l) && l@ == response_clients(s@),
    {
        Ok(ClientList::from_response(s))
    }
}

impl From<Vec<Client>> for ClientList {
    fn from(clients: Vec<Client>) -> (r: ClientList)
        ensures
            r@ == client_views(clients@),
    {
        ClientList(clients)
    }
}

impl vstd::std_specs::convert::FromSpecImpl<Vec<Client>> for ClientList {
    open spec fn obeys_from_spec() -> bool {
        true
    }

    closed spec fn from_spec(clients: Vec<Client>) -> ClientList {
        ClientList(clients)
    }
}

} // verus!
