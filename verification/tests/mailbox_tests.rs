use party_coordinator::mailbox::MailboxStore;
use party_coordinator::mailbox::PlayerProxy;
use party_coordinator::messages::Message;
use party_coordinator::roles::Mission;

#[test]
fn fresh_mailbox_holds_greeting() {
    let p = PlayerProxy::default();
    assert_eq!(p.messages.len(), 1);
    assert!(matches!(p.messages[0], Message::Hi));
}

#[test]
fn push_order_is_drain_order() {
    let mut p = PlayerProxy { messages: Vec::new() };
    p.send_message(Message::TwoFaceState { inting: true });
    p.send_message(Message::Mission { mission: Mission::Sing });
    p.send_message(Message::PlayerJoin { name: "ada".to_string() });
    let drained = p.drain();
    assert_eq!(drained.len(), 3);
    assert!(matches!(drained[0], Message::TwoFaceState { inting: true }));
    assert!(matches!(drained[1], Message::Mission { mission: Mission::Sing }));
    match &drained[2] {
        Message::PlayerJoin { name } => assert_eq!(name, "ada"),
        other => panic!("unexpected directive: {:?}", other),
    }
    assert!(p.messages.is_empty());
}

#[test]
fn drain_resets_to_empty() {
    let mut p = PlayerProxy::default();
    let first = p.drain();
    assert_eq!(first.len(), 1);
    let second = p.drain();
    assert!(second.is_empty());
}

#[test]
fn store_creation_is_idempotent() {
    let mut store = MailboxStore::new();
    let name = "ada".to_string();
    store.get_or_create(&name);
    store.push_to(&name, Message::TwoFaceState { inting: false });
    store.get_or_create(&name);
    let drained = store.drain_box(&name).unwrap();
    assert_eq!(drained.len(), 2);
    assert!(matches!(drained[0], Message::Hi));
    assert!(matches!(drained[1], Message::TwoFaceState { inting: false }));
}

#[test]
fn store_keeps_mailboxes_apart() {
    let mut store = MailboxStore::new();
    let ada = "ada".to_string();
    let bob = "bob".to_string();
    store.get_or_create(&ada);
    store.get_or_create(&bob);
    store.push_to(&ada, Message::TwoFaceState { inting: true });
    let bob_msgs = store.drain_box(&bob).unwrap();
    assert_eq!(bob_msgs.len(), 1);
    assert!(matches!(bob_msgs[0], Message::Hi));
    let ada_msgs = store.drain_box(&ada).unwrap();
    assert_eq!(ada_msgs.len(), 2);
    assert!(matches!(ada_msgs[1], Message::TwoFaceState { inting: true }));
}

#[test]
fn unknown_name_has_no_mailbox() {
    let mut store = MailboxStore::new();
    let name = "ghost".to_string();
    assert!(store.drain_box(&name).is_none());
    assert!(!store.contains(&name));
}
