use oblivious_transfer::address::SocketAddress;
use oblivious_transfer::connection::{
    Peer, UserMessage, UserMessageError, Username, UsernameError,
};
use oblivious_transfer::peers::PeerPanel;

fn name(text: &str) -> Username {
    Username::new(text.to_string()).unwrap()
}

fn message(text: &str) -> UserMessage {
    UserMessage::try_from(text.to_string()).unwrap()
}

#[test]
fn username_has_one_to_a_hundred_bytes() {
    assert_eq!(Username::new(String::new()), Err(UsernameError::Empty));
    assert_eq!(Username::new("a".to_string()).unwrap().as_str(), "a");
    assert_eq!(Username::new("a".repeat(100)).unwrap().as_str(), "a".repeat(100));
    assert_eq!(Username::new("a".repeat(101)), Err(UsernameError::TooLong));
    assert_eq!(Username::try_from("é".repeat(50)).unwrap().as_str(), "é".repeat(50));
    assert_eq!(Username::try_from("é".repeat(51)), Err(UsernameError::TooLong));
    assert_eq!(Username::try_from(String::new()), Err(UsernameError::Empty));
    assert_eq!(name("alice").into_string(), "alice".to_string());
    assert_eq!(name("alice").clone(), name("alice"));
    assert!(name("alice") < name("bob"));
}

#[test]
fn user_message_has_at_most_a_thousand_bytes() {
    assert_eq!(UserMessage::try_from(String::new()).unwrap().as_str(), "");
    assert_eq!(UserMessage::default().as_str(), "");
    assert_eq!(UserMessage::try_from("a".repeat(1000)).unwrap().as_str(), "a".repeat(1000));
    assert_eq!(UserMessage::try_from("a".repeat(1001)), Err(UserMessageError::TooLong));
    assert_eq!(UserMessage::try_from("é".repeat(500)).unwrap().as_str(), "é".repeat(500));
    assert_eq!(UserMessage::try_from("é".repeat(501)), Err(UserMessageError::TooLong));
    assert_eq!(message("hello").into_string(), "hello".to_string());
    assert_eq!(message("hello").clone(), message("hello"));
    assert!(message("hello").is_mutable());
}

#[test]
fn insert_text_at_a_character() {
    let mut m = message("héllo");
    assert_eq!(m.insert_text("XY", 2), 2);
    assert_eq!(m.as_str(), "héXYllo");
    assert_eq!(m.insert_text("<", 0), 1);
    assert_eq!(m.as_str(), "<héXYllo");
    assert_eq!(m.insert_text(">", 8), 1);
    assert_eq!(m.as_str(), "<héXYllo>");
    assert_eq!(m.insert_text("!", 100), 1);
    assert_eq!(m.as_str(), "<héXYllo>!");
    assert_eq!(m.insert_text("", 3), 0);
    assert_eq!(m.as_str(), "<héXYllo>!");
    let mut empty = UserMessage::default();
    assert_eq!(empty.insert_text("ż", 5), 1);
    assert_eq!(empty.as_str(), "ż");
}

#[test]
fn insert_text_is_cut_to_the_room_left() {
    let mut m = message(&"a".repeat(998));
    assert_eq!(m.insert_text("bcd", 0), 2);
    assert_eq!(m.as_str(), format!("bc{}", "a".repeat(998)));
    assert_eq!(m.insert_text("x", 5), 0);
    assert_eq!(m.as_str().len(), 1000);

    let mut m = message(&"a".repeat(997));
    assert_eq!(m.insert_text("éé", 997), 1);
    assert_eq!(m.as_str(), format!("{}é", "a".repeat(997)));
    assert_eq!(m.as_str().len(), 999);
    assert_eq!(m.insert_text("é", 0), 0);
    assert_eq!(m.insert_text("€", 0), 0);
    assert_eq!(m.insert_text("z€", 1), 1);
    assert_eq!(m.as_str().len(), 1000);

    let mut m = UserMessage::default();
    assert_eq!(m.insert_text(&"€".repeat(400), 0), 333);
    assert_eq!(m.as_str(), "€".repeat(333));
}

#[test]
fn delete_char_range_by_characters() {
    let mut m = message("héllo wörld");
    m.delete_char_range(1..3);
    assert_eq!(m.as_str(), "hlo wörld");
    m.delete_char_range(0..0);
    assert_eq!(m.as_str(), "hlo wörld");
    m.delete_char_range(5..100);
    assert_eq!(m.as_str(), "hlo w");
    m.delete_char_range(50..60);
    assert_eq!(m.as_str(), "hlo w");
    m.delete_char_range(0..5);
    assert_eq!(m.as_str(), "");
    m.delete_char_range(0..1);
    assert_eq!(m.as_str(), "");
}

#[test]
fn socket_address_from_and_to_octets() {
    let addr = SocketAddress::new([192, 168, 0, 1], 12345);
    assert_eq!(addr.ip, 0xC0A8_0001);
    assert_eq!(addr.ip(), 0xC0A8_0001);
    assert_eq!(addr.port(), 12345);
    assert_eq!(addr.octets(), [192, 168, 0, 1]);
    assert_eq!(addr.table_key(), 0xC0A8_0001_3039);
    assert_eq!(SocketAddress::new([0, 0, 0, 0], 0).table_key(), 0);
    let last = SocketAddress::new([255, 255, 255, 255], 65535);
    assert_eq!(last.ip, u32::MAX);
    assert_eq!(last.octets(), [255; 4]);
    assert_eq!(last.table_key(), 0xFFFF_FFFF_FFFF);
    assert_eq!(SocketAddress::new([1, 2, 3, 4], 5).octets(), [1, 2, 3, 4]);
    assert!(SocketAddress::new([10, 0, 0, 1], 9) < SocketAddress::new([10, 0, 0, 2], 1));
    assert!(SocketAddress::new([10, 0, 0, 1], 1) < SocketAddress::new([10, 0, 0, 1], 2));
}

#[test]
fn peer_holds_address_and_name() {
    let addr = SocketAddress::new([10, 0, 0, 7], 12345);
    let anonymous = Peer::new(addr);
    assert_eq!(anonymous.address(), addr);
    assert_eq!(anonymous.name(), None);
    let named = Peer::new_with_name(addr, name("carol"));
    assert_eq!(named.address(), addr);
    assert_eq!(named.name(), Some(&name("carol")));
    assert_eq!(named.clone(), named);
    assert_ne!(named, anonymous);
    assert!(anonymous < named);
    let later = Peer::new(SocketAddress::new([10, 0, 0, 8], 1));
    assert!(named < later);
}

#[test]
fn peer_panel_files_peers_by_address() {
    let a = SocketAddress::new([10, 0, 0, 1], 12345);
    let b = SocketAddress::new([10, 0, 0, 2], 12345);
    let mut panel = PeerPanel::new();
    assert_eq!(panel.len(), 0);
    assert_eq!(panel.get_peer(&a), None);
    panel.add_peer(Peer::new_with_name(a, name("alice")));
    panel.add_peer(Peer::new(b));
    assert_eq!(panel.len(), 2);
    assert_eq!(panel.get_peer(&a), Some(Peer::new_with_name(a, name("alice"))));
    assert_eq!(panel.get_peer(&b), Some(Peer::new(b)));
    panel.remove_peer(&a);
    assert_eq!(panel.len(), 1);
    assert_eq!(panel.get_peer(&a), None);
    panel.remove_peer(&a);
    assert_eq!(panel.len(), 1);
    panel.clear_peers();
    assert_eq!(panel.len(), 0);
    assert_eq!(panel.get_peer(&b), None);
    assert_eq!(PeerPanel::default().len(), 0);
}

#[test]
fn adding_a_peer_twice_keeps_one_entry() {
    let a = SocketAddress::new([10, 0, 0, 1], 12345);
    let mut panel = PeerPanel::new();
    panel.add_peer(Peer::new_with_name(a, name("alice")));
    panel.add_peer(Peer::new_with_name(a, name("alice")));
    assert_eq!(panel.len(), 1);
    panel.add_peer(Peer::new_with_name(a, name("alicia")));
    assert_eq!(panel.len(), 1);
    assert_eq!(panel.get_peer(&a), Some(Peer::new_with_name(a, name("alicia"))));
    let same_host_other_port = SocketAddress::new([10, 0, 0, 1], 12346);
    panel.add_peer(Peer::new(same_host_other_port));
    assert_eq!(panel.len(), 2);
}
