use sqlib::channel::{Channel, ChannelList};
use sqlib::client::{Client, ClientList};
use sqlib::map::to_map;

#[test]
fn new_channel_is_empty() {
    let channel = Channel::new(0, "test".to_string());
    assert!(channel.is_empty());
    assert_eq!(channel.clients_len(), 0);
    assert_eq!(channel.to_text(), "test");
}

#[test]
fn new_channel_unescapes_name() {
    let channel = Channel::new(3, "Default\\sChannel".to_string());
    assert_eq!(channel.cid, 3);
    assert_eq!(channel.channel_name, "Default Channel");
}

#[test]
fn channel_text_lists_clients() {
    let mut channel = Channel::new(1, "Lobby".to_string());
    channel.add_client(Client::new(1, "a".to_string()));
    channel.add_client(Client::new(2, "b".to_string()));
    assert_eq!(channel.clients_len(), 2);
    assert_eq!(channel.to_text(), "Lobby\n  a (0)\n  b (0)");
}

#[test]
fn channel_from_map_and_update() {
    let channel = Channel::from_map(&to_map("cid=7 channel_name=Room\\s7 pid=0"));
    assert_eq!(channel.cid, 7);
    assert_eq!(channel.channel_name, "Room 7");
    let updated = Channel::update_from_map(&channel, &to_map("cid=x"));
    assert_eq!(updated.cid, 7);
    assert_eq!(updated.channel_name, "Room 7");
    let parsed: Channel = "cid=8 channel_name=E".parse().unwrap();
    assert_eq!(parsed.cid, 8);
    assert_eq!(parsed.channel_name, "E");
}

#[test]
fn remove_sq_clients_keeps_regular_clients() {
    let mut channel = Channel::new(1, "Lobby".to_string());
    let mut query = Client::new(2, "query".to_string());
    query.client_type = 1;
    channel.add_client(Client::new(1, "a".to_string()));
    channel.add_client(query);
    channel.add_client(Client::new(3, "b".to_string()));
    channel.remove_sq_clients();
    let ids: Vec<i64> = channel.clients.iter().map(|c| c.clid).collect();
    assert_eq!(ids, vec![1, 3]);
}

#[test]
fn sort_clients_orders_by_clid() {
    let mut channel = Channel::new(1, "Lobby".to_string());
    for id in [5, 2, 9, 2, 1].iter() {
        channel.add_client(Client::new(*id, format!("c{}", id)));
    }
    channel.sort_clients();
    let ids: Vec<i64> = channel.clients.iter().map(|c| c.clid).collect();
    assert_eq!(ids, vec![1, 2, 2, 5, 9]);
    assert_eq!(channel.cid, 1);
    assert_eq!(channel.channel_name, "Lobby");
}

#[test]
fn channels_compare_by_cid() {
    let a = Channel::new(1, "a".to_string());
    let b = Channel::new(1, "b".to_string());
    let c = Channel::new(2, "a".to_string());
    assert!(a == b);
    assert!(a != c);
    assert!(a < c);
}

#[test]
fn channel_list_from_wire() {
    let list: ChannelList = "cid=1 channel_name=Foo|cid=2 channel_name=Bar".parse().unwrap();
    let channels = list.into_inner();
    assert_eq!(channels.len(), 2);
    assert_eq!(channels[0].cid, 1);
    assert_eq!(channels[0].channel_name, "Foo");
    assert!(channels[0].clients.is_empty());
    assert_eq!(channels[1].cid, 2);
    assert_eq!(channels[1].channel_name, "Bar");
    assert!(channels[1].clients.is_empty());
}

#[test]
fn merge_attaches_client_to_its_channel_only() {
    let mut channels = ChannelList::from_response("cid=1 channel_name=Foo|cid=2 channel_name=Bar");
    let clients = ClientList::from_response("clid=5 cid=1 client_nickname=Max");
    channels.merge_clients(&clients);
    let channels = channels.into_inner();
    assert_eq!(channels[0].clients.len(), 1);
    assert_eq!(channels[0].clients[0].clid, 5);
    assert_eq!(channels[0].clients[0].client_nickname, "Max");
    assert!(channels[1].is_empty());
}

#[test]
fn merge_keeps_client_order_and_copies() {
    let mut channels = ChannelList::from(vec![
        Channel::new(1, "a".to_string()),
        Channel::new(2, "b".to_string()),
        Channel::new(1, "again".to_string()),
    ]);
    let mut first = Client::new(10, "x".to_string());
    first.cid = 1;
    let mut second = Client::new(11, "y".to_string());
    second.cid = 2;
    let mut third = Client::new(12, "z".to_string());
    third.cid = 1;
    let mut nowhere = Client::new(13, "w".to_string());
    nowhere.cid = 9;
    let clients = ClientList::from(vec![first, second, third, nowhere]);
    channels.merge_clients(&clients);
    let mut kept = clients.into_inner();
    kept[0].client_nickname = "changed".to_string();
    let channels = channels.into_inner();
    let ids: Vec<Vec<i64>> = channels.iter().map(|ch| ch.clients.iter().map(|c| c.clid).collect()).collect();
    assert_eq!(ids, vec![vec![10, 12], vec![11], vec![10, 12]]);
    assert_eq!(channels[0].clients[0].client_nickname, "x");
}

#[test]
fn insert_client_into_empty_list() {
    let mut channels = ChannelList::default();
    channels.insert_client(&Client::new(1, "a".to_string()));
    assert_eq!(channels.len(), 0);
}

#[test]
fn channel_list_from_maps() {
    let maps = vec![to_map("cid=3 channel_name=A"), to_map("cid=4")];
    let list = ChannelList::from_maps(&maps);
    let channels = list.as_vec();
    assert_eq!(channels.len(), 2);
    assert_eq!(channels[0].cid, 3);
    assert_eq!(channels[1].cid, 4);
    assert_eq!(channels[1].channel_name, "");
}

#[test]
fn sort_clients_keeps_order_of_equal_ids() {
    let mut channel = Channel::new(1, "Lobby".to_string());
    for (id, name) in [(3, "first"), (1, "a"), (3, "second"), (2, "b"), (3, "third")].iter() {
        channel.add_client(Client::new(*id, name.to_string()));
    }
    channel.sort_clients();
    let names: Vec<String> = channel.clients.iter().map(|c| c.client_nickname.clone()).collect();
    assert_eq!(names, vec!["a", "b", "first", "second", "third"]);
}

#[test]
fn channel_list_from_vec_and_back() {
    let channels = vec![Channel::new(1, "a".to_string()), Channel::new(2, "b".to_string())];
    let list = ChannelList::from(channels.clone());
    assert_eq!(&channels, list.as_vec());
    assert_eq!(list.into_inner(), channels);
}
