use tcptalk::client::{ConnectedUsersWidget, Message};
use tcptalk::protocol::{
    chat_line, classify_input, classify_text, join_notice, leave_notice, rejection_notice,
    roster_line, username_prompt, ClientInput,
};
use tcptalk::registry::{PeerAddr, Registry, UsernameError};

fn peer(port: u16) -> PeerAddr {
    PeerAddr { ip: 0xffff_0a00_0002, port }
}

#[test]
fn fixed_texts() {
    assert_eq!(username_prompt(), "Enter your username: ");
    assert_eq!(
        rejection_notice(UsernameError::Empty),
        "Username cannot be empty. Please try again.\n"
    );
    assert_eq!(
        rejection_notice(UsernameError::TooLong),
        "Username is too long (at most 31 bytes). Please choose another.\n"
    );
    assert_eq!(
        rejection_notice(UsernameError::Reserved),
        "Username 'System' is reserved. Please choose another.\n"
    );
    assert_eq!(
        rejection_notice(UsernameError::Taken),
        "Username is already taken. Please choose another.\n"
    );
}

#[test]
fn notices_and_chat_lines() {
    assert_eq!(join_notice("alice"), "alice has joined the chat\n");
    assert_eq!(leave_notice("bob"), "bob has left the chat\n");
    assert_eq!(chat_line("alice", "hi\n"), "alice: hi\n");
    assert_eq!(chat_line("alice", "part"), "alice: part");
    assert_eq!(roster_line("[]"), "USER_LIST:[]\n");
}

#[test]
fn roster_message_lists_names_as_json() {
    let mut r = Registry::new();
    assert_eq!(r.roster_message(), "USER_LIST:[]\n");
    assert_eq!(r.insert(peer(1), "alice".to_string()), Ok(()));
    assert_eq!(r.insert(peer(2), "bo\"b".to_string()), Ok(()));
    assert_eq!(
        r.roster_message(),
        "USER_LIST:[\"alice\",\"bo\\\"b\"]\n"
    );
}

#[test]
fn get_users_is_a_private_request() {
    assert_eq!(classify_input("alice", b"GET_USERS\n"), ClientInput::RosterRequest);
    assert_eq!(classify_input("alice", b"  GET_USERS \r\n"), ClientInput::RosterRequest);
    assert_eq!(classify_text("alice", "GET_USERS"), ClientInput::RosterRequest);
    assert_eq!(
        classify_input("alice", b"get_users\n"),
        ClientInput::Chat("alice: get_users\n".to_string())
    );
    assert_eq!(
        classify_input("alice", b"GET_USERS now\n"),
        ClientInput::Chat("alice: GET_USERS now\n".to_string())
    );
}

#[test]
fn chat_input_is_relayed_under_the_name() {
    assert_eq!(
        classify_input("bob", b"hello there\n"),
        ClientInput::Chat("bob: hello there\n".to_string())
    );
    assert_eq!(
        classify_input("bob", &[0x68, 0xff, 0x69]),
        ClientInput::Chat("bob: h\u{fffd}i".to_string())
    );
}

#[test]
fn negotiate_decodes_and_trims() {
    let mut r = Registry::new();
    assert_eq!(r.negotiate(b"alice\n"), Ok("alice".to_string()));
    assert_eq!(r.negotiate(b"\n"), Err(UsernameError::Empty));
    assert_eq!(r.negotiate(b""), Err(UsernameError::Empty));
    assert_eq!(r.negotiate(b"SyStEm\r\n"), Err(UsernameError::Reserved));
    assert_eq!(r.negotiate(&[0xff, 0x0a]), Ok("\u{fffd}".to_string()));
    // eleven invalid bytes become eleven three-byte replacement characters
    assert_eq!(r.negotiate(&[0xff; 11]), Err(UsernameError::TooLong));
    assert_eq!(r.negotiate(&[0xff; 10]), Ok("\u{fffd}".repeat(10)));
    assert_eq!(r.negotiate(&[b'x'; 32]), Err(UsernameError::TooLong));
    assert_eq!(r.insert(peer(1), "alice".to_string()), Ok(()));
    assert_eq!(r.negotiate(b"Alice\n"), Err(UsernameError::Taken));
}

#[test]
fn roster_after_join_reaches_every_member() {
    let mut r = Registry::new();
    assert_eq!(r.insert(peer(1), "alice".to_string()), Ok(()));
    assert_eq!(r.insert(peer(2), "bob".to_string()), Ok(()));
    assert_eq!(r.broadcast_targets(peer(2), true), vec![peer(1), peer(2)]);
    assert_eq!(
        r.roster_message(),
        "USER_LIST:[\"alice\",\"bob\"]\n"
    );
    assert_eq!(r.remove(peer(1)), Some("alice".to_string()));
    assert_eq!(r.broadcast_targets(peer(1), true), vec![peer(2)]);
    assert_eq!(r.roster_message(), "USER_LIST:[\"bob\"]\n");
}

#[test]
fn two_clients_chat_and_one_leaves() {
    let a = peer(1);
    let b = peer(2);
    let mut r = Registry::new();
    let name_a = r.negotiate(b"alice\n").unwrap();
    assert_eq!(r.insert(a, name_a.clone()), Ok(()));
    assert_eq!(r.negotiate(b"alice\n"), Err(UsernameError::Taken));
    let name_b = r.negotiate(b"bob\n").unwrap();
    assert_eq!(r.insert(b, name_b.clone()), Ok(()));

    let line = match classify_input(&name_a, b"hi") {
        ClientInput::Chat(line) => line,
        ClientInput::RosterRequest => panic!("chat expected"),
    };
    assert_eq!(line, "alice: hi");
    assert_eq!(r.broadcast_targets(a, false), vec![b]);

    assert_eq!(r.remove(b), Some("bob".to_string()));
    assert_eq!(leave_notice(&name_b), "bob has left the chat\n");
    assert_eq!(r.broadcast_targets(b, true), vec![a]);
    assert_eq!(r.roster_message(), "USER_LIST:[\"alice\"]\n");
}

#[test]
fn users_widget_holds_the_roster() {
    let mut w = ConnectedUsersWidget::new();
    assert!(w.users.is_empty());
    w.set_users(vec!["alice".to_string(), "bob".to_string()]);
    assert_eq!(w.users, vec!["alice".to_string(), "bob".to_string()]);
    w.set_users(Vec::new());
    assert!(w.users.is_empty());
    let m = Message { author: "alice".to_string(), content: "hi".to_string() };
    assert_eq!(m.author, "alice");
    assert_eq!(m.content, "hi");
}
