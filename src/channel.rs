//! A channel of the server with the clients in it, the list that a
//! `channellist` response gives, and the merge that puts each client into
//! its channel.
use crate::client::{
    client_text, client_views, regular, regular_clients, response_maps, response_to_maps,
    compare_ids, text_field, number_field, Client, ClientList, ClientView,
};
use crate::error::Error;
use crate::escaping::{unescape, unescaped};
use crate::map::{record_map, to_map, update_from_map, StringMap};
use vstd::prelude::*;
use vstd::seq_lib::{to_multiset_build, to_multiset_insert};

verus! {

/// What a channel holds.
pub ghost struct ChannelView {
    pub cid: i64,
    pub channel_name: Seq<char>,
    pub clients: Seq<ClientView>,
}

/// The channel with id 0, an empty name and no clients.
pub open spec fn blank_channel() -> ChannelView {
    ChannelView { cid: 0, channel_name: Seq::empty(), clients: Seq::empty() }
}

/// A channel after an update of its id and name from `map`.
pub open spec fn hydrated_channel(c: ChannelView, map: Map<Seq<char>, Seq<char>>) -> ChannelView {
    ChannelView {
        cid: number_field(c.cid, map, "cid"@),
        channel_name: text_field(c.channel_name, map, "channel_name"@),
        clients: c.clients,
    }
}

/// The channels of a `channellist` response: one for each record, with no
/// clients.
pub open spec fn response_channels(s: Seq<char>) -> Seq<ChannelView> {
    response_maps(s).map_values(
        |m: Map<Seq<char>, Seq<char>>| hydrated_channel(blank_channel(), m),
    )
}

/// The clients of `cs` whose channel is `cid`, in order.
pub open spec fn clients_in(cs: Seq<ClientView>, cid: i64) -> Seq<ClientView> {
    cs.filter(|c: ClientView| c.cid == cid)
}

/// The channels `chs` after the merge of the clients `cs`: each channel
/// gets, after the clients that it had, each client of `cs` whose channel
/// id is its own, in the order of `cs`.
pub open spec fn merged(chs: Seq<ChannelView>, cs: Seq<ClientView>) -> Seq<ChannelView> {
    chs.map_values(
        |ch: ChannelView| ChannelView { clients: ch.clients + clients_in(cs, ch.cid), ..ch },
    )
}

/// How a channel shows: its name, then each client on a line of its own,
/// indented by two spaces.
pub open spec fn channel_text(ch: ChannelView) -> Seq<char> {
    ch.channel_name + client_lines(ch.clients)
}

pub open spec fn client_lines(cs: Seq<ClientView>) -> Seq<char>
    decreases cs.len(),
{
    if cs.len() == 0 {
        Seq::empty()
    } else {
        client_lines(cs.drop_last()) + seq!['\n', ' ', ' '] + client_text(cs.last())
    }
}

/// Whether the clients are in order of `clid`.
pub open spec fn sorted_by_clid(cs: Seq<ClientView>) -> bool {
    forall|i: int, j: int| 0 <= i < j < cs.len() ==> cs[i].clid <= cs[j].clid
}

/// The clients of `cs` whose `clid` is `k`, in order.
pub open spec fn with_clid(cs: Seq<ClientView>, k: i64) -> Seq<ClientView> {
    cs.filter(|c: ClientView| c.clid == k)
}

proof fn lemma_with_clid_push(cs: Seq<ClientView>, x: ClientView, k: i64)
    ensures
        with_clid(cs.push(x), k) == if x.clid == k {
            with_clid(cs, k).push(x)
        } else {
            with_clid(cs, k)
        },
{
    reveal(Seq::filter);
    assert(cs.push(x).drop_last() =~= cs);
}

/// Inserting `x` into the clients `cs`, sorted by `clid`, after those whose
/// `clid` is at most `x`'s and before the others, puts it after the clients
/// with the same `clid`.
proof fn lemma_with_clid_insert(cs: Seq<ClientView>, p: int, x: ClientView, k: i64)
    requires
        sorted_by_clid(cs),
        0 <= p <= cs.len(),
        forall|j: int| 0 <= j < p ==> #[trigger] cs[j].clid <= x.clid,
        p < cs.len() ==> cs[p].clid > x.clid,
    ensures
        with_clid(cs.insert(p, x), k) == if x.clid == k {
            with_clid(cs, k).push(x)
        } else {
            with_clid(cs, k)
        },
{
    let pred = |c: ClientView| c.clid == k;
    let a = cs.take(p);
    let b = cs.skip(p);
    assert(cs =~= a + b);
    assert(cs.insert(p, x) =~= (a + seq![x]) + b);
    Seq::filter_distributes_over_add(a + seq![x], b, pred);
    Seq::filter_distributes_over_add(a, seq![x], pred);
    Seq::filter_distributes_over_add(a, b, pred);
    lemma_with_clid_push(Seq::empty(), x, k);
    assert(Seq::<ClientView>::empty().push(x) =~= seq![x]);
    reveal(Seq::filter);
    assert(Seq::<ClientView>::empty().filter(pred) =~= Seq::<ClientView>::empty());
    if x.clid == k {
        assert forall|j: int| 0 <= j < b.len() implies !pred(#[trigger] b[j]) by {
            assert(cs[p].clid <= cs[p + j].clid);
        }
        assert(b.all(|y: ClientView| !pred(y)));
        b.lemma_all_neg_filter_empty(pred);
        assert(b.filter(pred) =~= Seq::<ClientView>::empty());
        assert(a.filter(pred) + seq![x] + b.filter(pred) =~= (a.filter(pred) + b.filter(pred)).push(x));
    } else {
        assert(a.filter(pred) + Seq::<ClientView>::empty() + b.filter(pred) =~= a.filter(pred) + b.filter(pred));
    }
}

/// Copies of the clients of `cs`.
fn copy_clients(cs: &Vec<Client>) -> (r: Vec<Client>)
    ensures
        client_views(r@) == client_views(cs@),
{
    let mut out: Vec<Client> = Vec::new();
    let mut i: usize = 0;
    while i < cs.len()
        invariant
            i <= cs@.len(),
            client_views(out@) == client_views(cs@).take(i as int),
        decreases cs@.len() - i,
    {
        let ghost prev = client_views(out@);
        let c = cs[i].clone();
        out.push(c);
        assert(client_views(out@) =~= prev.push(c@));
        assert(client_views(cs@).take(i + 1) =~= client_views(cs@).take(i as int).push(cs@[i as int]@));
        i = i + 1;
    }
    assert(client_views(cs@).take(cs@.len() as int) =~= client_views(cs@));
    out
}

/// A channel of the server. Two channels are equal, and ordered, by `cid`.
#[derive(Debug)]
pub struct Channel {
    /// The channel's id.
    pub cid: i64,
    /// The name, unescaped.
    pub channel_name: String,
    /// The clients in the channel: copies, not shared with any other list.
    pub clients: Vec<Client>,
}

impl View for Channel {
    type V = ChannelView;

    open spec fn view(&self) -> ChannelView {
        ChannelView {
            cid: self.cid,
            channel_name: self.channel_name@,
            clients: client_views(self.clients@),
        }
    }
}

impl Clone for Channel {
    fn clone(&self) -> (r: Channel)
        ensures
            r@ == self@,
    {
        Channel {
            cid: self.cid,
            channel_name: self.channel_name.clone(),
            clients: copy_clients(&self.clients),
        }
    }
}

impl Default for Channel {
    fn default() -> (r: Channel)
        ensures
            r@ == blank_channel(),
    {
        let r = Channel { cid: 0, channel_name: String::new(), clients: Vec::new() };
        assert(r@.clients =~= Seq::<ClientView>::empty());
        r
    }
}

impl Channel {
    /// An empty channel with the id `channel_id` and the name `name`
    /// (unescaped here).
    pub fn new(channel_id: i64, name: String) -> (r: Channel)
        ensures
            r@ == (ChannelView {
                cid: channel_id,
                channel_name: unescaped(name@),
                clients: Seq::empty(),
            }),
    {
        let mut channel = Channel::default();
        channel.cid = channel_id;
        channel.channel_name = name;
        channel.unescape();
        channel
    }

    fn unescape(&mut self)
        ensures
            final(self)@ == (ChannelView {
                channel_name: unescaped(old(self).channel_name@),
                ..old(self)@
            }),
    {
        self.channel_name = unescape(self.channel_name.as_str());
    }

    /// A channel read from the map of a record, with no clients.
    pub fn from_map(map: &StringMap) -> (r: Channel)
        ensures
            r@ == hydrated_channel(blank_channel(), map@),
    {
        let mut channel = Channel::default();
        channel.mut_from_map(map);
        channel
    }

    /// A copy of `channel` with its id and name updated from `map`.
    pub fn update_from_map(channel: &Channel, map: &StringMap) -> (r: Channel)
        ensures
            r@ == hydrated_channel(channel@, map@),
    {
        let mut channel = channel.clone();
        channel.mut_from_map(map);
        channel
    }

    /// Updates the id and the name from `map`, then unescapes the name.
    pub fn mut_from_map(&mut self, map: &StringMap)
        ensures
            final(self)@ == hydrated_channel(old(self)@, map@),
    {
        update_from_map(map, "cid", &mut self.cid);
        update_from_map(map, "channel_name", &mut self.channel_name);
        self.unescape();
    }

    /// Whether no client is in the channel.
    pub fn is_empty(&self) -> (r: bool)
        ensures
            r == (self@.clients.len() == 0),
    {
        self.clients.len() == 0
    }

    /// The number of clients in the channel.
    pub fn clients_len(&self) -> (r: usize)
        ensures
            r == self@.clients.len(),
    {
        self.clients.len()
    }

    /// Puts `client` at the end of the channel's clients.
    pub fn add_client(&mut self, client: Client)
        ensures
            final(self)@ == (ChannelView { clients: old(self)@.clients.push(client@), ..old(self)@ }),
    {
        self.clients.push(client);
        assert(client_views(self.clients@) =~= old(self)@.clients.push(client@));
    }

    /// Orders the clients by `clid`; clients with the same `clid` keep
    /// their order.
    pub fn sort_clients(&mut self)
        ensures
            final(self)@.cid == old(self)@.cid,
            final(self)@.channel_name == old(self)@.channel_name,
            sorted_by_clid(final(self)@.clients),
            final(self)@.clients.to_multiset() == old(self)@.clients.to_multiset(),
            forall|k: i64| #[trigger]
                with_clid(final(self)@.clients, k) == with_clid(old(self)@.clients, k),
    {
        let mut rest: Vec<Client> = Vec::new();
        std::mem::swap(&mut rest, &mut self.clients);
        let ghost all = client_views(rest@);
        let mut out: Vec<Client> = Vec::new();
        let mut i: usize = 0;
        let n = rest.len();
        assert(all.take(0) =~= Seq::<ClientView>::empty());
        assert(client_views(out@) =~= all.take(0));
        assert(all =~= all.skip(0));
        while rest.len() > 0
            invariant
                n == all.len(),
                i + rest@.len() == n,
                client_views(rest@) == all.skip(i as int),
                sorted_by_clid(client_views(out@)),
                client_views(out@).to_multiset() == all.take(i as int).to_multiset(),
                forall|k: i64| #[trigger]
                    with_clid(client_views(out@), k) == with_clid(all.take(i as int), k),
            decreases rest@.len(),
        {
            let ghost before = rest@;
            let c = rest.remove(0);
            assert(client_views(before)[0] == before[0]@);
            assert(all.skip(i as int)[0] == all[i as int]);
            assert(c@ == all[i as int]);
            assert(client_views(rest@) =~= client_views(before).skip(1));
            assert(all.skip(i as int).skip(1) =~= all.skip(i + 1));
            let ghost sorted = client_views(out@);
            let mut p: usize = 0;
            while p < out.len() && out[p].clid <= c.clid
                invariant
                    p <= out@.len(),
                    sorted == client_views(out@),
                    forall|j: int| 0 <= j < p ==> #[trigger] sorted[j].clid <= c.clid,
                decreases out@.len() - p,
            {
                p = p + 1;
            }
            out.insert(p, c);
            proof {
                let inserted = client_views(out@);
                assert(inserted =~= sorted.insert(p as int, c@));
                assert forall|a: int, b: int| 0 <= a < b < inserted.len() implies inserted[a].clid
                    <= inserted[b].clid by {
                    if p < sorted.len() {
                        assert(sorted[p as int].clid > c.clid);
                    }
                }
                to_multiset_insert(sorted, p as int, c@);
                assert(all.take(i + 1) =~= all.take(i as int).push(all[i as int]));
                to_multiset_build(all.take(i as int), all[i as int]);
                assert forall|k: i64| #[trigger]
                    with_clid(inserted, k) == with_clid(all.take(i + 1), k) by {
                    lemma_with_clid_insert(sorted, p as int, c@, k);
                    lemma_with_clid_push(all.take(i as int), all[i as int], k);
                }
            }
            i = i + 1;
        }
        assert(all.take(n as int) =~= all);
        self.clients = out;
        assert(forall|k: i64| #[trigger]
            with_clid(self@.clients, k) == with_clid(old(self)@.clients, k));
    }

    /// Removes the query clients, keeping the regular ones in order.
    pub fn remove_sq_clients(&mut self)
        ensures
            final(self)@ == (ChannelView { clients: regular(old(self)@.clients), ..old(self)@ }),
    {
        self.clients = regular_clients(&self.clients);
    }

    /// The channel as it shows: its name, then each client on a line of its
    /// own, indented by two spaces.
    pub fn to_text(&self) -> (r: String)
        ensures
            r@ == channel_text(self@),
    {
        let mut out = self.channel_name.clone();
        let ghost cs = self@.clients;
        let mut i: usize = 0;
        assert(cs.take(0) =~= Seq::<ClientView>::empty());
        assert(out@ =~= self@.channel_name + client_lines(cs.take(0)));
        while i < self.clients.len()
            invariant
                cs == self@.clients,
                i <= cs.len(),
                out@ == self@.channel_name + client_lines(cs.take(i as int)),
            decreases cs.len() - i,
        {
            proof {
                reveal_strlit("\n  ");
            }
            assert(cs.take(i + 1).drop_last() =~= cs.take(i as int));
            assert(cs.take(i + 1).last() == self.clients@[i as int]@);
            out.append("\n  ");
            out.append(self.clients[i].to_text().as_str());
            assert(out@ =~= self@.channel_name + client_lines(cs.take(i + 1)));
            i = i + 1;
        }
        assert(cs.take(cs.len() as int) =~= cs);
        out
    }
}

impl PartialEq for Channel {
    fn eq(&self, other: &Channel) -> (r: bool)
        ensures
            r == (self.cid == other.cid),
    {
        self.cid == other.cid
    }
}

impl vstd::std_specs::cmp::PartialEqSpecImpl for Channel {
    open spec fn obeys_eq_spec() -> bool {
        true
    }

    open spec fn eq_spec(&self, other: &Channel) -> bool {
        self.cid == other.cid
    }
}

impl Eq for Channel {

}

impl PartialOrd for Channel {
    fn partial_cmp(&self, other: &Channel) -> (r: Option<core::cmp::Ordering>)
        ensures
            r == Some(compare_ids(self.cid, other.cid)),
    {
        if self.cid < other.cid {
            Some(core::cmp::Ordering::Less)
        } else if self.cid > other.cid {
            Some(core::cmp::Ordering::Greater)
        } else {
            Some(core::cmp::Ordering::Equal)
        }
    }
}

impl vstd::std_specs::cmp::PartialOrdSpecImpl for Channel {
    open spec fn obeys_partial_cmp_spec() -> bool {
        true
    }

    open spec fn partial_cmp_spec(&self, other: &Channel) -> Option<core::cmp::Ordering> {
        Some(compare_ids(self.cid, other.cid))
    }
}

/// A channel read from one record.
impl std::str::FromStr for Channel {
    type Err = Error;

    fn from_str(s: &str) -> (r: Result<Channel, Error>)
        ensures
            r matches Ok(c) && c@ == hydrated_channel(blank_channel(), record_map(s@)),
    {
        Ok(Channel::from_map(&to_map(s)))
    }
}

/// The views of a sequence of channels.
pub open spec fn channel_views(v: Seq<Channel>) -> Seq<ChannelView> {
    v.map_values(|c: Channel| c@)
}

/// The channels of a `channellist` response, in order.
#[derive(Debug)]
pub struct ChannelList(Vec<Channel>);

impl View for ChannelList {
    type V = Seq<ChannelView>;

    closed spec fn view(&self) -> Seq<ChannelView> {
        channel_views(self.0@)
    }
}

impl Default for ChannelList {
    fn default() -> (r: ChannelList)
        ensures
            r@ == Seq::<ChannelView>::empty(),
    {
        let r = ChannelList(Vec::new());
        assert(r@ =~= Seq::<ChannelView>::empty());
        r
    }
}

proof fn lemma_clients_in_one(c: ClientView, cid: i64)
    ensures
        clients_in(seq![c], cid) == if c.cid == cid {
            seq![c]
        } else {
            Seq::empty()
        },
{
    reveal_with_fuel(Seq::filter, 2);
    let e = Seq::<ClientView>::empty();
    assert(seq![c].drop_last() =~= e);
    assert(seq![c].last() == c);
    assert(e.filter(|x: ClientView| x.cid == cid) =~= e);
    assert(e.push(c) =~= seq![c]);
}

/// Merging the clients of `a` and then those of `b` is merging those of
/// `a + b`.
pub proof fn lemma_merged_concat(chs: Seq<ChannelView>, a: Seq<ClientView>, b: Seq<ClientView>)
    ensures
        merged(merged(chs, a), b) == merged(chs, a + b),
{
    assert forall|i: int| 0 <= i < chs.len() implies #[trigger] merged(merged(chs, a), b)[i]
        == merged(chs, a + b)[i] by {
        let p = |c: ClientView| c.cid == chs[i].cid;
        Seq::filter_distributes_over_add(a, b, p);
        assert(chs[i].clients + clients_in(a, chs[i].cid) + clients_in(b, chs[i].cid)
            =~= chs[i].clients + clients_in(a + b, chs[i].cid));
    }
    assert(merged(merged(chs, a), b) =~= merged(chs, a + b));
}

/// Merging no client leaves the channels as they are.
pub proof fn lemma_merged_none(chs: Seq<ChannelView>)
    ensures
        merged(chs, Seq::empty()) == chs,
{
    assert forall|i: int| 0 <= i < chs.len() implies #[trigger] merged(chs, Seq::empty())[i]
        == chs[i] by {
        reveal(Seq::filter);
        assert(clients_in(Seq::empty(), chs[i].cid) =~= Seq::<ClientView>::empty());
        assert(chs[i].clients + Seq::<ClientView>::empty() =~= chs[i].clients);
    }
    assert(merged(chs, Seq::empty()) =~= chs);
}

impl ChannelList {
    /// The channels of the list.
    pub fn into_inner(self) -> (r: Vec<Channel>)
        ensures
            channel_views(r@) == self@,
    {
        let ChannelList(channels) = self;
        channels
    }

    /// The channels of the list, borrowed.
    pub fn as_vec(&self) -> (r: &Vec<Channel>)
        ensures
            channel_views(r@) == self@,
    {
        &self.0
    }

    /// The number of channels.
    pub fn len(&self) -> (r: usize)
        ensures
            r == self@.len(),
    {
        self.0.len()
    }

    /// A list of the channels read from each map, in order, with no
    /// clients.
    pub fn from_maps(maps: &[StringMap]) -> (r: ChannelList)
        ensures
            r@ == maps@.map_values(|m: StringMap| hydrated_channel(blank_channel(), m@)),
    {
        let mut channels: Vec<Channel> = Vec::new();
        let mut i: usize = 0;
        while i < maps.len()
            invariant
                i <= maps@.len(),
                channel_views(channels@) == maps@.take(i as int).map_values(
                    |m: StringMap| hydrated_channel(blank_channel(), m@),
                ),
            decreases maps@.len() - i,
        {
            let ghost prev = channel_views(channels@);
            let c = Channel::from_map(&maps[i]);
            channels.push(c);
            assert(channel_views(channels@) =~= prev.push(c@));
            assert(maps@.take(i + 1).map_values(
                |m: StringMap| hydrated_channel(blank_channel(), m@),
            ) =~= maps@.take(i as int).map_values(
                |m: StringMap| hydrated_channel(blank_channel(), m@),
            ).push(hydrated_channel(blank_channel(), maps@[i as int]@)));
            i = i + 1;
        }
        assert(maps@.take(maps@.len() as int) =~= maps@);
        ChannelList(channels)
    }

    /// The list that a `channellist` response gives: one channel for each
    /// record between `|`, with no clients.
    pub fn from_response(s: &str) -> (r: ChannelList)
        ensures
            r@ == response_channels(s@),
    {
        let maps = response_to_maps(s);
        let r = ChannelList::from_maps(maps.as_slice());
        assert(r@ =~= response_channels(s@));
        r
    }

    /// Puts a copy of `client` at the end of the clients of every channel
    /// whose id is the client's channel id.
    pub fn insert_client(&mut self, client: &Client)
        ensures
            final(self)@ == merged(old(self)@, seq![client@]),
    {
        let cid = client.cid;
        let ghost target = merged(old(self)@, seq![client@]);
        let mut i: usize = 0;
        while i < self.0.len()
            invariant
                i <= self@.len(),
                self@.len() == old(self)@.len(),
                target == merged(old(self)@, seq![client@]),
                cid == client.cid,
                forall|j: int| 0 <= j < i ==> #[trigger] self@[j] == target[j],
                forall|j: int| i <= j < self@.len() ==> #[trigger] self@[j] == old(self)@[j],
            decreases self@.len() - i,
        {
            proof {
                lemma_clients_in_one(client@, old(self)@[i as int].cid);
            }
            let ghost before = self@;
            let ghost ch = old(self)@[i as int];
            assert(before[i as int] == ch);
            if self.0[i].cid == cid {
                self.0[i].add_client(client.clone());
                assert(self@[i as int].clients =~= ch.clients + seq![client@]);
            } else {
                assert(self@[i as int].clients =~= ch.clients + Seq::<ClientView>::empty());
            }
            assert(self@[i as int] =~= target[i as int]);
            assert(forall|j: int| 0 <= j < self@.len() && j != i ==> #[trigger] self@[j] == before[j]);
            i = i + 1;
        }
        assert(self@ =~= target);
    }

    /// Puts a copy of each client of `clients`, in order, into every channel
    /// whose id is the client's channel id.
    pub fn merge_clients(&mut self, clients: &ClientList)
        ensures
            final(self)@ == merged(old(self)@, clients@),
    {
        let cs = clients.as_vec();
        let mut i: usize = 0;
        proof {
            lemma_merged_none(old(self)@);
            assert(clients@.take(0) =~= Seq::<ClientView>::empty());
        }
        while i < cs.len()
            invariant
                i <= clients@.len(),
                client_views(cs@) == clients@,
                self@ == merged(old(self)@, clients@.take(i as int)),
            decreases clients@.len() - i,
        {
            self.insert_client(&cs[i]);
            proof {
                lemma_merged_concat(old(self)@, clients@.take(i as int), seq![cs@[i as int]@]);
                assert(clients@.take(i as int) + seq![cs@[i as int]@] =~= clients@.take(i + 1));
            }
            i = i + 1;
        }
        assert(clients@.take(clients@.len() as int) =~= clients@);
    }
}

/// The list that a `channellist` response gives.
impl std::str::FromStr for ChannelList {
    type Err = Error;

    fn from_str(s: &str) -> (r: Result<ChannelList, Error>)
        ensures
            r matches Ok(l) && l@ == response_channels(s@),
    {
        Ok(ChannelList::from_response(s))
    }
}

impl From<Vec<Channel>> for ChannelList {
    fn from(channels: Vec<Channel>) -> (r: ChannelList)
        ensures
            r@ == channel_views(channels@),
    {
        ChannelList(channels)
    }
}

impl vstd::std_specs::convert::FromSpecImpl<Vec<Channel>> for ChannelList {
    open spec fn obeys_from_spec() -> bool {
        true
    }

    closed spec fn from_spec(channels: Vec<Channel>) -> ChannelList {
        ChannelList(channels)
    }
}

} // verus!
