use kafka::protocol::{handshake_step, relay_step, HandshakeAction, ReadEvent, RelayAction};
use kafka::registry::Registry;

fn line(s: &str) -> ReadEvent {
    ReadEvent::Line(s.to_string())
}

fn deliver(a: RelayAction) -> (Vec<u64>, String, String, bool) {
    match a {
        RelayAction::Deliver { targets, message, frame, topic_existed } => {
            (targets, message, frame, topic_existed)
        }
        other => panic!("expected a delivery, got {:?}", other),
    }
}

#[test]
fn subscribe_then_publish_delivers_once() {
    // Client A subscribes to "news"; client B publishes "hello" to "news".
    // A receives the message exactly once; B gets nothing back.
    let mut reg = Registry::new();
    let a = handshake_step(&mut reg, 1, line("{\"method\":\"subscribe\",\"topic\":\"news\"}\n"));
    match a {
        HandshakeAction::Subscribed { topic } => assert_eq!(topic, "news"),
        other => panic!("expected a subscription, got {:?}", other),
    }
    let b = handshake_step(&mut reg, 2, line("{\"method\":\"publish\",\"topic\":\"news\"}\n"));
    let topic = match b {
        HandshakeAction::EnterRelay { topic } => topic,
        other => panic!("expected a publisher, got {:?}", other),
    };
    let (targets, message, frame, existed) =
        deliver(relay_step(&reg, &topic, line("{\"message\":\"hello\"}\n")));
    assert_eq!(targets, vec![1]);
    assert_eq!(message, "hello");
    assert_eq!(frame, "{\"message\":\"hello\"}\n");
    assert!(existed);
    assert!(!targets.contains(&2));
}

#[test]
fn publish_without_subscribers_is_not_an_error() {
    // Client B publishes "x" to "empty" with no subscribers: no delivery
    // anywhere, no error, and the connection stays open for more messages.
    let mut reg = Registry::new();
    let b = handshake_step(&mut reg, 2, line("{\"method\":\"publish\",\"topic\":\"empty\"}\n"));
    let topic = match b {
        HandshakeAction::EnterRelay { topic } => topic,
        other => panic!("expected a publisher, got {:?}", other),
    };
    let (targets, message, _, existed) =
        deliver(relay_step(&reg, &topic, line("{\"message\":\"x\"}\n")));
    assert!(targets.is_empty());
    assert_eq!(message, "x");
    assert!(!existed);
    // A later message still goes through the same non-erroring path.
    let (targets2, _, _, _) = deliver(relay_step(&reg, &topic, line("{\"message\":\"y\"}\n")));
    assert!(targets2.is_empty());
}

#[test]
fn fanout_reaches_two_subscribers() {
    let mut reg = Registry::new();
    let topic = "news".to_string();
    reg.subscribe(&topic, 1);
    reg.subscribe(&topic, 2);
    let (targets, _, frame, existed) =
        deliver(relay_step(&reg, &topic, line("{\"message\":\"m1\"}\n")));
    assert_eq!(targets, vec![1, 2]);
    assert_eq!(frame, "{\"message\":\"m1\"}\n");
    assert!(existed);
}

#[test]
fn session_delivers_all_messages_in_order() {
    let mut reg = Registry::new();
    let topic = "news".to_string();
    reg.subscribe(&topic, 7);
    let sent = ["first", "second", "third"];
    let mut received: Vec<String> = Vec::new();
    for m in sent {
        let l = format!("{{\"message\":\"{}\"}}\n", m);
        let (targets, message, _, _) = deliver(relay_step(&reg, &topic, line(&l)));
        for t in targets {
            if t == 7 {
                received.push(message.clone());
            }
        }
    }
    assert_eq!(received, vec!["first", "second", "third"]);
}

#[test]
fn duplicate_subscribe_is_kept_and_delivered_twice() {
    // The same handle may register twice; it then stands twice on the list.
    let mut reg = Registry::new();
    let topic = "news".to_string();
    reg.subscribe(&topic, 4);
    reg.subscribe(&topic, 4);
    let (targets, _, _, _) = deliver(relay_step(&reg, &topic, line("{\"message\":\"m\"}\n")));
    assert_eq!(targets, vec![4, 4]);
}

#[test]
fn pruned_subscriber_is_excluded_from_later_publishes() {
    // Subscriber 1's connection dies; the first publish after that prunes
    // it, and every later publish goes only to the survivors.
    let mut reg = Registry::new();
    let topic = "news".to_string();
    reg.subscribe(&topic, 1);
    reg.subscribe(&topic, 2);
    let (targets, _, _, _) = deliver(relay_step(&reg, &topic, line("{\"message\":\"m1\"}\n")));
    assert_eq!(targets, vec![1, 2]);
    // The write to handle 1 failed; handle 2 took the frame.
    reg.prune_topic(&topic, &vec![false, true]);
    let (targets2, _, _, _) = deliver(relay_step(&reg, &topic, line("{\"message\":\"m2\"}\n")));
    assert_eq!(targets2, vec![2]);
    let (targets3, _, _, _) = deliver(relay_step(&reg, &topic, line("{\"message\":\"m3\"}\n")));
    assert_eq!(targets3, vec![2]);
}

#[test]
fn pruning_to_empty_keeps_the_topic() {
    // An emptied subscriber list is a valid, persistent topic state.
    let mut reg = Registry::new();
    let topic = "news".to_string();
    reg.subscribe(&topic, 1);
    reg.prune_topic(&topic, &vec![false]);
    let (targets, existed) = reg.publish_targets(&topic);
    assert!(targets.is_empty());
    assert!(existed);
}

#[test]
fn malformed_handshake_rejected_without_touching_topics() {
    let mut reg = Registry::new();
    let topic = "news".to_string();
    reg.subscribe(&topic, 1);
    let a = handshake_step(&mut reg, 9, line("not json at all\n"));
    assert!(matches!(a, HandshakeAction::SendErrorAndClose));
    // The offender got no registration and no topic was created or changed.
    let (targets, existed) = reg.publish_targets(&topic);
    assert_eq!(targets, vec![1]);
    assert!(existed);
    let (none, absent) = reg.publish_targets(&"not json at all".to_string());
    assert!(none.is_empty());
    assert!(!absent);
}

#[test]
fn malformed_relay_line_rejects_only_the_offender() {
    let mut reg = Registry::new();
    let topic = "news".to_string();
    reg.subscribe(&topic, 1);
    let a = relay_step(&reg, &topic, line("{\"message\": }\n"));
    assert!(matches!(a, RelayAction::SendErrorAndClose));
    // Other connections' state is untouched: the next publish still
    // reaches the same subscriber.
    let (targets, _, _, _) = deliver(relay_step(&reg, &topic, line("{\"message\":\"ok\"}\n")));
    assert_eq!(targets, vec![1]);
}

#[test]
fn handshake_with_unknown_method_is_rejected() {
    // A method outside subscribe/publish does not match the handshake
    // shape: one error frame, close, no topic state touched.
    let mut reg = Registry::new();
    let a = handshake_step(&mut reg, 3, line("{\"method\":\"peek\",\"topic\":\"news\"}\n"));
    assert!(matches!(a, HandshakeAction::SendErrorAndClose));
    let (_, existed) = reg.publish_targets(&"news".to_string());
    assert!(!existed);
}

#[test]
fn handshake_with_unknown_extra_field_is_rejected() {
    let mut reg = Registry::new();
    let a = handshake_step(
        &mut reg,
        3,
        line("{\"method\":\"subscribe\",\"topic\":\"news\",\"junk\":0}\n"),
    );
    assert!(matches!(a, HandshakeAction::SendErrorAndClose));
    let (_, existed) = reg.publish_targets(&"news".to_string());
    assert!(!existed);
}

#[test]
fn relay_line_with_unknown_extra_field_is_rejected() {
    let mut reg = Registry::new();
    let topic = "news".to_string();
    reg.subscribe(&topic, 1);
    let a = relay_step(&reg, &topic, line("{\"message\":\"m\",\"junk\":0}\n"));
    assert!(matches!(a, RelayAction::SendErrorAndClose));
}

#[test]
fn peer_close_and_read_error_close_silently() {
    let mut reg = Registry::new();
    assert!(matches!(
        handshake_step(&mut reg, 3, ReadEvent::Closed),
        HandshakeAction::CloseSilently
    ));
    assert!(matches!(
        handshake_step(&mut reg, 3, ReadEvent::Failed),
        HandshakeAction::CloseSilently
    ));
    let topic = "t".to_string();
    assert!(matches!(relay_step(&reg, &topic, ReadEvent::Closed), RelayAction::CloseSilently));
    assert!(matches!(relay_step(&reg, &topic, ReadEvent::Failed), RelayAction::CloseSilently));
}

#[test]
fn topics_are_independent() {
    let mut reg = Registry::new();
    let news = "news".to_string();
    let sport = "sport".to_string();
    reg.subscribe(&news, 1);
    reg.subscribe(&sport, 2);
    let (t1, _, _, _) = deliver(relay_step(&reg, &news, line("{\"message\":\"n\"}\n")));
    let (t2, _, _, _) = deliver(relay_step(&reg, &sport, line("{\"message\":\"s\"}\n")));
    assert_eq!(t1, vec![1]);
    assert_eq!(t2, vec![2]);
    reg.prune_topic(&news, &vec![false]);
    let (t3, _, _, _) = deliver(relay_step(&reg, &sport, line("{\"message\":\"s2\"}\n")));
    assert_eq!(t3, vec![2]);
}
