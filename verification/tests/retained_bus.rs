use ts_runtime::retained_bus::{
    ActorId, GetRetained, MessageType, Publish, RetainedBus, TellOutcome, Unregister,
};

const T: MessageType = MessageType(0);
const U: MessageType = MessageType(1);

fn bus() -> RetainedBus<&'static str, u32> {
    RetainedBus::default()
}

/// What is known of a type is created, found and removed under it.
#[test]
fn basic() {
    let mut bus: RetainedBus<(), ()> = RetainedBus::default();

    let ent = bus.entry_or_default(T);
    assert!(ent.retained.is_none());
    assert!(ent.recipients.is_empty());

    assert!(bus.get(T).is_some());
    assert!(bus.get_mut(T).is_some());

    let ent = bus.remove(T).unwrap();
    assert!(ent.retained.is_none());
    assert!(ent.recipients.is_empty());

    assert!(bus.get(T).is_none());
    assert!(bus.get_mut(T).is_none());
    assert!(bus.remove(T).is_none());
}

/// An actor that registers is told what is published after it.
#[test]
fn bus_basic() {
    let mut bus = bus();
    assert!(bus.greeting(T, ActorId(4)).is_none());
    assert!(bus.handle_register(T, ActorId(4), 40).is_none());
    let tell = bus.handle_publish(T, Publish::unretained("hi"));
    assert_eq!(tell, vec![ActorId(4)]);
}

#[test]
fn publish_constructors() {
    let publish = Publish::unretained(3);
    assert_eq!((publish.message, publish.retained), (3, false));
    let publish = Publish::retained(3);
    assert_eq!((publish.message, publish.retained), (3, true));
    let publish = Publish::<u8>::default();
    assert_eq!((publish.message, publish.retained), (0, false));
}

#[test]
fn retained_message_is_read_back() {
    let mut bus = bus();
    assert_eq!(bus.handle_get_retained(T, GetRetained::default()), None);
    assert!(bus.handle_publish(T, Publish::retained("a")).is_empty());
    assert_eq!(bus.handle_get_retained(T, GetRetained::default()), Some(&"a"));
    assert_eq!(bus.handle_get_retained(U, GetRetained::default()), None);
    bus.handle_publish(T, Publish::retained("b"));
    assert_eq!(bus.handle_get_retained(T, GetRetained::default()), Some(&"b"));
}

#[test]
fn unretained_publish_keeps_retained_message() {
    let mut bus = bus();
    bus.handle_publish(T, Publish::retained("a"));
    bus.handle_publish(T, Publish::unretained("b"));
    assert_eq!(bus.handle_get_retained(T, GetRetained::default()), Some(&"a"));
    bus.handle_publish(U, Publish::unretained("c"));
    assert_eq!(bus.handle_get_retained(U, GetRetained::default()), None);
    assert!(bus.get(U).is_some());
}

#[test]
fn newcomers_are_told_retained_message_once() {
    let mut bus = bus();
    bus.handle_publish(T, Publish::retained("a"));
    assert_eq!(bus.greeting(T, ActorId(1)), Some(&"a"));
    assert_eq!(bus.handle_register(T, ActorId(1), 10), None);
    assert_eq!(bus.greeting(T, ActorId(1)), None);
    assert_eq!(bus.greeting(T, ActorId(2)), Some(&"a"));
    assert_eq!(bus.greeting(U, ActorId(2)), None);
    assert_eq!(bus.handle_register(T, ActorId(1), 11), Some(10));
}

#[test]
fn publish_is_told_to_every_recipient_of_its_type() {
    let mut bus = bus();
    bus.handle_register(T, ActorId(1), 10);
    bus.handle_register(T, ActorId(2), 20);
    bus.handle_register(U, ActorId(3), 30);
    let mut tell = bus.handle_publish(T, Publish::retained("a"));
    tell.sort_by_key(|id| id.0);
    assert_eq!(tell, vec![ActorId(1), ActorId(2)]);
}

#[test]
fn dead_actors_are_dropped_when_a_tell_fails() {
    let mut bus = bus();
    for id in 1..=3 {
        bus.handle_register(T, ActorId(id), 0);
    }
    let outcome = |id, delivered, alive| TellOutcome { actor_id: ActorId(id), delivered, alive };

    // all accepted: nobody is dropped, not even an actor that has died since
    bus.handle_tell_outcomes(
        T,
        &vec![outcome(1, true, true), outcome(2, true, false), outcome(3, true, true)],
    );
    assert_eq!(bus.get(T).unwrap().recipients.len(), 3);

    // a failed tell: the dead are dropped, a living actor that failed is not
    bus.handle_tell_outcomes(
        T,
        &vec![outcome(1, false, true), outcome(2, true, false), outcome(3, true, true)],
    );
    let state = bus.get(T).unwrap();
    assert!(state.recipients.contains_key(&ActorId(1)));
    assert!(!state.recipients.contains_key(&ActorId(2)));
    assert!(state.recipients.contains_key(&ActorId(3)));

    // the type stays known, with its retained message, even if nobody is left
    bus.handle_publish(T, Publish::retained("a"));
    bus.handle_tell_outcomes(T, &vec![outcome(1, false, false), outcome(3, false, false)]);
    assert!(bus.get(T).unwrap().recipients.is_empty());
    assert_eq!(bus.handle_get_retained(T, GetRetained::default()), Some(&"a"));

    // outcomes of a type that is not known change nothing
    bus.handle_tell_outcomes(U, &vec![outcome(1, false, false)]);
    assert!(bus.get(U).is_none());
}

#[test]
fn unregister_gives_back_the_recipient() {
    let mut bus = bus();
    assert_eq!(bus.handle_unregister(T, Unregister::new(ActorId(1))), (None, None));
    bus.handle_publish(T, Publish::retained("a"));
    bus.handle_register(T, ActorId(1), 10);
    bus.handle_register(T, ActorId(2), 20);
    assert_eq!(bus.handle_unregister(T, Unregister::new(ActorId(1))), (Some(10), None));
    assert_eq!(bus.handle_unregister(T, Unregister::new(ActorId(1))), (None, None));
    assert_eq!(bus.handle_get_retained(T, GetRetained::default()), Some(&"a"));
    // the last one takes the retained message along
    assert_eq!(bus.handle_unregister(T, Unregister::new(ActorId(2))), (Some(20), Some("a")));
    assert!(bus.get(T).is_none());
}

#[test]
fn unregister_without_recipients_drops_the_type() {
    let mut bus = bus();
    bus.handle_publish(T, Publish::retained("a"));
    assert_eq!(bus.handle_unregister(T, Unregister::new(ActorId(9))), (None, Some("a")));
    assert!(bus.get(T).is_none());
}

#[test]
fn changes_in_place_are_kept() {
    let mut bus = bus();
    bus.entry_or_default(T).retained = Some("a");
    assert_eq!(bus.handle_get_retained(T, GetRetained::default()), Some(&"a"));
    bus.get_mut(T).unwrap().retained = None;
    assert_eq!(bus.handle_get_retained(T, GetRetained::default()), None);
}

#[test]
fn retained_message_and_registration_outlast_other_events() {
    let mut bus = bus();
    bus.handle_register(T, ActorId(1), 10);
    bus.handle_publish(T, Publish::retained("a"));
    bus.handle_publish(T, Publish::unretained("b"));
    bus.handle_publish(U, Publish::retained("c"));
    bus.handle_register(T, ActorId(2), 20);
    bus.handle_unregister(T, Unregister::new(ActorId(2)));
    bus.handle_register(U, ActorId(1), 11);
    bus.handle_unregister(U, Unregister::new(ActorId(1)));
    bus.handle_tell_outcomes(
        T,
        &vec![TellOutcome { actor_id: ActorId(1), delivered: false, alive: true }],
    );
    assert_eq!(bus.handle_get_retained(T, GetRetained::default()), Some(&"a"));
    assert_eq!(bus.greeting(T, ActorId(3)), Some(&"a"));
    assert_eq!(bus.greeting(T, ActorId(1)), None);
    assert_eq!(bus.handle_publish(T, Publish::unretained("d")), vec![ActorId(1)]);
}
