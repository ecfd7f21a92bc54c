use toppy::proto::{Capsule, ControlMessage, PlaceholderMessage};

#[test]
fn capsule_new_sets_fields() {
    let capsule = Capsule::new(7, vec![1, 2, 3]);
    assert_eq!(capsule.kind, 7);
    assert_eq!(capsule.payload, vec![1, 2, 3]);
}

#[test]
fn control_message_terminal_detection() {
    assert!(!ControlMessage::Ping.is_terminal());
    assert!(ControlMessage::Close {
        reason: "done".to_string()
    }
    .is_terminal());
}

#[test]
fn control_message_pong_is_not_terminal() {
    assert!(!ControlMessage::Pong.is_terminal());
    assert!(ControlMessage::Close { reason: String::new() }.is_terminal());
}

#[test]
fn placeholder_message_is_one_value() {
    assert_eq!(PlaceholderMessage::new(), PlaceholderMessage);
}

#[test]
fn greeting_is_fixed() {
    assert_eq!(toppy::greeting(), "Hello from toppy-core!");
}
