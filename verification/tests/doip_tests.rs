use doip::config::{Configuration, Net, SettingsError};
use doip::net::bootstrap::{introduce, local_node, Introduction};
use doip::notes::chord::{Command, Node as ChordNode};
use doip::notes::dht::{Key, NodeBuilder, NodeDesc, FIRST_PORT, PORT_END};
use doip::notes::membership::{Member, MemberReply, MembershipMessage, Node as MembershipNode};
use doip::notes::stun::{Endian, Header, Message, MessageClass, MessageMethod, WriteError, MAGIC_COOKIE};
use doip::protocols::gossip::gossip::{pick_at, GossipMessage, RandomSelectStrategy, SelectStrategy};
use doip::protocols::nat_traversal::discovery::{local_address, NatDiscovery};
use doip::protocols::swim::http_client::{join_url, ConsumableResponse, JoinRequest, JoinResponse, Method};
use doip::protocols::swim::messages::{Address, ContactAddr};
use doip::protocols::swim::routes::{
    is_existing_member, join as join_at, join_with_picks, plan_gossip, remove, JoinReply, FANOUT,
};
use doip::protocols::swim::swim::Node;

fn addr(s: &str) -> ContactAddr {
    ContactAddr(s.to_string())
}

fn texts(members: &[ContactAddr]) -> Vec<String> {
    members.iter().map(|m| m.0.clone()).collect()
}

#[test]
fn serialize_bind_req() {
    let message = Message::new(MessageMethod::Binding);

    let mut write = [0u8; 8 + 12];
    message.try_write(&mut write, Endian::Big).unwrap();
    println!("{:?}", write);
    assert_eq!(write.len(), 8 + 12);
    assert_ne!(&write[8..], [0; 12]);
    // first two for STUN Message Type (MessageClass | MessageMethod)
    // next two bytes are message len -> 0x00, 0x00
    // cookie -> 0x21, 0x12, 0xA4, 0x42
    assert_eq!(&write[..8], [0x00, 0x01, 0x00, 0x00, 0x21, 0x12, 0xA4, 0x42]);
}

#[test]
fn header_with_known_id_is_written_in_both_orders() {
    let id = [1u8, 2, 3, 4, 5, 6, 7, 8, 9, 10, 11, 12];
    let mut big = [0xEEu8; 24];
    assert_eq!(Header::with_transaction_id(MessageMethod::Binding, id).try_write(&mut big, Endian::Big), Ok(20));
    assert_eq!(&big[..8], [0x00, 0x01, 0x00, 0x00, 0x21, 0x12, 0xA4, 0x42]);
    assert_eq!(&big[8..20], id);
    assert_eq!(&big[20..], [0xEE; 4]);

    let mut little = [0u8; 20];
    assert_eq!(Header::with_transaction_id(MessageMethod::Binding, id).try_write(&mut little, Endian::Little), Ok(20));
    assert_eq!(&little[..8], [0x01, 0x00, 0x00, 0x00, 0x42, 0xA4, 0x12, 0x21]);
    assert_eq!(&little[8..], id);
    assert_eq!(MAGIC_COOKIE, 0x2112A442);
}

#[test]
fn header_write_stops_at_short_buffers() {
    let id = [9u8; 12];
    let mut one = [0xEEu8; 1];
    assert_eq!(Header::with_transaction_id(MessageMethod::Binding, id).try_write(&mut one, Endian::Big), Err(WriteError::Incomplete));
    assert_eq!(one, [0xEE]);

    let mut three = [0xEEu8; 3];
    assert_eq!(Header::with_transaction_id(MessageMethod::Binding, id).try_write(&mut three, Endian::Big), Err(WriteError::Incomplete));
    assert_eq!(three, [0x00, 0x01, 0xEE]);

    let mut seven = [0xEEu8; 7];
    assert_eq!(Header::with_transaction_id(MessageMethod::Binding, id).try_write(&mut seven, Endian::Big), Err(WriteError::Incomplete));
    assert_eq!(seven, [0x00, 0x01, 0x00, 0x00, 0xEE, 0xEE, 0xEE]);

    let mut five = [0xEEu8; 5];
    assert_eq!(Message::new(MessageMethod::Binding).try_write(&mut five, Endian::Big), Ok(0));
    assert_eq!(five, [0x00, 0x01, 0x00, 0x00, 0xEE]);
}

#[test]
fn message_class_codes_read_back() {
    for class in [
        MessageClass::Request,
        MessageClass::Indication,
        MessageClass::SuccessResponse,
        MessageClass::FailureResponse,
    ] {
        assert_eq!(MessageClass::try_from(class.code()), Ok(class));
    }
    assert_eq!(MessageClass::Indication.code(), 16);
    assert_eq!(MessageClass::FailureResponse.code(), 272);
    assert_eq!(MessageClass::try_from(256), Ok(MessageClass::SuccessResponse));
    assert_eq!(MessageClass::try_from(1), Err("Unknown message class given"));
    assert_eq!(MessageClass::try_from(17), Err("Unknown message class given"));
    assert_eq!(MessageMethod::Binding.code(), 1);
}

#[test]
fn configuration_port_overrides_sourced_port() {
    let mut configuration = Configuration::new();
    configuration.port(9000);
    let settings = configuration
        .finish_with(Some(8080), Net { known_node: "0.0.0.0:9000".to_string() })
        .unwrap();
    assert_eq!(settings.app_port, 9000);
    assert_eq!(settings.net.known_node, "0.0.0.0:9000");

    let mut chained = Configuration::new();
    let settings = chained.port(1).port(2).finish_with(None, Net { known_node: String::new() }).unwrap();
    assert_eq!(settings.app_port, 2);
}

#[test]
fn configuration_uses_sourced_port_or_fails() {
    let configuration = Configuration::new();
    let settings = configuration.finish_with(Some(8080), Net { known_node: "k".to_string() }).unwrap();
    assert_eq!(settings.app_port, 8080);
    let missing = configuration.finish_with(None, Net { known_node: "k".to_string() });
    assert_eq!(missing.err(), Some(SettingsError::MissingPort));
}

#[test]
fn find_addr_writes_the_port_in_decimal() {
    let discovery = NatDiscovery {};
    assert_eq!(discovery.find_addr(&true, &9000).0, "0.0.0.0:9000");
    assert_eq!(discovery.find_addr(&true, &0).0, "0.0.0.0:0");
    assert_eq!(discovery.find_addr(&true, &7).0, "0.0.0.0:7");
    assert_eq!(discovery.find_addr(&true, &65535).0, "0.0.0.0:65535");
    assert_eq!(discovery.find_addr(&true, &10).0, "0.0.0.0:10");
    assert_eq!(local_address(3400), "0.0.0.0:3400");
}

#[test]
fn local_node_knows_no_member() {
    let node = local_node(9001);
    assert_eq!(node.addr.0, "0.0.0.0:9001");
    assert!(node.members.is_empty());
}

#[test]
fn introduce_known_node_founds_network() {
    let mut node = local_node(9000);
    let known = "0.0.0.0:9000".to_string();
    assert!(matches!(introduce(&mut node, &known), Introduction::Founded));
    assert_eq!(texts(&node.members), vec!["0.0.0.0:9000"]);
}

#[test]
fn introduce_other_node_asks_known_node() {
    let mut node = local_node(9001);
    let known = "0.0.0.0:9000".to_string();
    match introduce(&mut node, &known) {
        Introduction::Join { payload, destination } => {
            assert_eq!(payload.address.0, "0.0.0.0:9001");
            assert_eq!(destination.0, "0.0.0.0:9000");
        }
        Introduction::Founded => panic!("a node that is not the known node does not found the network"),
    }
    assert!(node.members.is_empty());
}

#[test]
fn consume_appends_the_answered_members() {
    let mut node = Node { addr: addr("0.0.0.0:9001"), members: vec![addr("a")] };
    let mut response = ConsumableResponse { body: vec![addr("0.0.0.0:9000"), addr("0.0.0.0:9001")], endpoint: "join" };
    let taken = response.consume(&mut node);
    assert_eq!(taken.addr.0, "0.0.0.0:9001");
    assert_eq!(texts(&taken.members), vec!["a", "0.0.0.0:9000", "0.0.0.0:9001"]);
    assert_eq!(node.addr.0, "");
    assert!(node.members.is_empty());
    assert!(response.body.is_empty());
}

#[test]
fn join_url_names_the_join_endpoint() {
    assert_eq!(join_url(&addr("0.0.0.0:9000")), "http://0.0.0.0:9000/join");
}

#[test]
fn membership_checks_and_removal() {
    let members = vec![addr("a"), addr("b"), addr("c"), addr("b")];
    assert!(is_existing_member(&members, &addr("c")));
    assert!(!is_existing_member(&members, &addr("d")));
    assert!(!is_existing_member(&vec![], &addr("a")));
    let b = addr("b");
    let d = addr("d");
    let kept = remove(&members, &vec![&b, &d]);
    assert_eq!(kept.iter().map(|m| m.0.clone()).collect::<Vec<_>>(), vec!["a", "c"]);
    let all = remove(&members, &vec![]);
    assert_eq!(all.len(), 4);
}

#[test]
fn join_refuses_an_existing_member() {
    let mut node = Node { addr: addr("me"), members: vec![addr("me"), addr("x")] };
    assert!(matches!(join_at(&mut node, addr("x")), JoinReply::Refused));
    assert_eq!(texts(&node.members), vec!["me", "x"]);
}

#[test]
fn join_accepts_newcomer_and_gossips_to_the_others() {
    let mut node = Node { addr: addr("me"), members: vec![addr("me"), addr("a"), addr("b")] };
    match join_at(&mut node, addr("n")) {
        JoinReply::Accepted { gossip: Some(rumor) } => {
            assert_eq!(rumor.text, "joined n");
            assert_eq!(texts(&rumor.targets), vec!["a", "b"]);
        }
        _ => panic!("the newcomer is accepted and the others hear of it"),
    }
    assert_eq!(texts(&node.members), vec!["me", "a", "b", "n"]);
}

#[test]
fn join_at_a_lone_node_gossips_nothing() {
    let mut node = Node { addr: addr("me"), members: vec![addr("me")] };
    assert!(matches!(join_at(&mut node, addr("n")), JoinReply::Accepted { gossip: None }));
    assert_eq!(texts(&node.members), vec!["me", "n"]);
}

#[test]
fn join_with_many_members_draws_from_the_member_list() {
    let members = vec![addr("me"), addr("a"), addr("b"), addr("c"), addr("d")];
    let mut node = Node { addr: addr("me"), members: members.clone() };
    // candidates a, b, c, d: more than the fan-out, so the draw indexes the members
    match join_with_picks(&mut node, addr("n"), &vec![0, 3, 1]) {
        JoinReply::Accepted { gossip: Some(rumor) } => {
            assert_eq!(rumor.text, "joined n");
            assert_eq!(texts(&rumor.targets), vec!["me", "c", "a"]);
        }
        _ => panic!("the newcomer is accepted"),
    }
    assert_eq!(node.members.len(), 6);

    let mut random_node = Node { addr: addr("me"), members };
    match join_at(&mut random_node, addr("n")) {
        JoinReply::Accepted { gossip: Some(rumor) } => {
            assert_eq!(rumor.targets.len(), FANOUT);
            for target in &rumor.targets {
                assert!(["me", "a", "b", "c"].contains(&target.0.as_str()));
            }
        }
        _ => panic!("the newcomer is accepted"),
    }
}

#[test]
fn plan_gossip_with_no_other_member_is_empty() {
    let members = vec![addr("me"), addr("n")];
    assert!(plan_gossip(&members, &addr("me"), &addr("n"), &vec![]).is_none());
}

#[test]
fn nodes_joining_through_the_founder_learn_the_network() {
    let known = "0.0.0.0:9000".to_string();
    let mut founder = local_node(9000);
    assert!(matches!(introduce(&mut founder, &known), Introduction::Founded));
    let mut last = None;
    for port in 9001..9011u16 {
        let mut node = local_node(port);
        let request = match introduce(&mut node, &known) {
            Introduction::Join { payload, destination } => {
                assert_eq!(destination.0, known);
                payload
            }
            Introduction::Founded => panic!("only the known node founds"),
        };
        assert!(matches!(join_at(&mut founder, request.address), JoinReply::Accepted { .. }));
        let mut response = ConsumableResponse { body: founder.members.clone(), endpoint: "join" };
        let node = response.consume(&mut node);
        assert!(is_existing_member(&node.members, &node.addr));
        last = Some(node);
    }
    assert_eq!(founder.members.len(), 11);
    let last = last.unwrap();
    assert_eq!(last.members.len(), 11);
    assert_eq!(last.members[10].0, "0.0.0.0:9010");
    assert!(matches!(join_at(&mut founder, addr("0.0.0.0:9005")), JoinReply::Refused));
    assert_eq!(founder.members.len(), 11);
}

#[test]
fn random_select_strategy_picks_among_nodes() {
    let nodes = vec![addr("a"), addr("b"), addr("c")];
    let mut strategy = RandomSelectStrategy(rand::thread_rng());
    let picked = strategy.select(&nodes, 5);
    assert_eq!(picked.len(), 5);
    for p in picked {
        assert!(nodes.contains(p));
    }
    assert!(strategy.select(&vec![], 0).is_empty());
    let picked = pick_at(&nodes, &vec![2, 0, 2]);
    assert_eq!(picked.iter().map(|m| m.0.clone()).collect::<Vec<_>>(), vec!["c", "a", "c"]);
}

#[test]
fn messages_carry_their_values() {
    let a = Address::new(addr("x"));
    assert_eq!(a.value, addr("x"));
    assert_eq!(addr("x").clone(), addr("x"));
    assert_ne!(addr("x"), addr("y"));
    assert_eq!(ContactAddr::default().0, "");
    assert_eq!(addr("0.0.0.0:1").to_string(), "0.0.0.0:1");
    let request = JoinRequest { address: addr("x") };
    assert_eq!(request.address.0, "x");
    let response = JoinResponse { members: vec![addr("y")] };
    assert_eq!(response.members.len(), 1);
    assert!(matches!(Method::Join, Method::Join));
    let GossipMessage::Join(kind, about) = GossipMessage::Join("joined", "x".to_string());
    assert_eq!((kind, about.as_str()), ("joined", "x"));
    assert_eq!(Node::default().members.len(), 0);
}

#[test]
fn member_counts_joins() {
    let mut member = Member::new();
    assert_eq!(member.on_message(&MembershipMessage::Join), MemberReply::Joins(1));
    assert_eq!(member.on_message(&MembershipMessage::Ping), MemberReply::PingNoted);
    assert_eq!(member.on_message(&MembershipMessage::Ack), MemberReply::Ignored);
    assert_eq!(member.on_message(&MembershipMessage::Join), MemberReply::Joins(2));
    member.join();
    assert_eq!(member.counter(), 3);
    let mut node = MembershipNode {};
    node.join();
}

#[test]
fn chord_node_starts_alone() {
    let mut node = ChordNode::new("1");
    assert_eq!(node.ip, "1");
    assert_eq!(node.id, "1");
    assert!(node.predecessor.is_none());
    assert!(node.successor.is_none());
    let other = ChordNode::new("2");
    node.join(&other);
    assert!(node.predecessor.is_none());
    assert!(node.find_successor(&other).is_none());
    assert_eq!(node.to_string(), "[1 (1)]");
    assert!(matches!(Command::FindSuccessor, Command::FindSuccessor));
}

#[test]
fn dht_key_is_the_sha1_of_the_address() {
    let key = Key::new("0.0.0.0:3400");
    assert_eq!(
        key.id,
        [101, 194, 79, 203, 54, 25, 38, 111, 117, 41, 193, 190, 96, 251, 185, 251, 53, 37, 146, 171]
    );
    assert_eq!(
        key.to_string(),
        "[65, c2, 4f, cb, 36, 19, 26, 6f, 75, 29, c1, be, 60, fb, b9, fb, 35, 25, 92, ab]"
    );
    assert_eq!(Key::from_digest(&[7u8; 20]).id, [7u8; 20]);
}

#[test]
fn node_builder_describes_a_local_node() {
    for _ in 0..50 {
        let fresh = NodeBuilder::new();
        assert!(!fresh.is_local());
        assert!(FIRST_PORT <= fresh.port_number() && fresh.port_number() < PORT_END);
    }
    let mut builder = NodeBuilder::new();
    let mut desc: NodeDesc = builder.local().port(&3400).describe();
    assert_eq!(desc.addr, "0.0.0.0:3400");
    assert_eq!(desc.key.id, Key::new("0.0.0.0:3400").id);
    assert_eq!(desc.n, 0);
    desc.handle();
    desc.handle();
    assert_eq!(desc.n, 2);
    assert!(builder.is_local());
    assert_eq!(builder.port_number(), 3400);
}
