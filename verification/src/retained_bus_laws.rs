//! What holds of the message bus over several messages.

use crate::retained_bus::{ActorId, MessageType, Publish, TellOutcome, Topic};
use vstd::prelude::*;

verus! {

/// Something that a bus takes in.
pub enum BusEvent<M, R> {
    /// A message is published.
    Published { ty: MessageType, publish: Publish<M> },
    /// A message was told with these outcomes.
    Told { ty: MessageType, outcomes: Seq<TellOutcome> },
    /// An actor is registered.
    Registered { ty: MessageType, actor_id: ActorId, recipient: R },
    /// The registration of an actor ends.
    Unregistered { ty: MessageType, actor_id: ActorId },
}

impl<M, R> BusEvent<M, R> {
    /// The type of message that the event concerns.
    pub open spec fn concerns(self) -> MessageType {
        match self {
            BusEvent::Published { ty, .. } => ty,
            BusEvent::Told { ty, .. } => ty,
            BusEvent::Registered { ty, .. } => ty,
            BusEvent::Unregistered { ty, .. } => ty,
        }
    }

    /// Whether the event registers an actor for messages of type `ty`, or may end its
    /// registration: because it is to end, or because the actor is no longer alive.
    pub open spec fn touches(self, ty: MessageType, actor_id: ActorId) -> bool {
        &&& self.concerns() == ty
        &&& match self {
            BusEvent::Published { .. } => false,
            BusEvent::Told { outcomes, .. } => crate::retained_bus::dead(outcomes).contains(
                actor_id,
            ),
            BusEvent::Registered { actor_id: other, .. } => other == actor_id,
            BusEvent::Unregistered { actor_id: other, .. } => other == actor_id,
        }
    }
}

/// The bus after an event.
pub open spec fn after_event<M, R>(
    bus: Map<MessageType, Topic<M, R>>,
    event: BusEvent<M, R>,
) -> Map<MessageType, Topic<M, R>> {
    match event {
        BusEvent::Published { ty, publish } => crate::retained_bus::after_publish(
            bus,
            ty,
            publish,
        ),
        BusEvent::Told { ty, outcomes } => crate::retained_bus::after_tell_outcomes(
            bus,
            ty,
            outcomes,
        ),
        BusEvent::Registered { ty, actor_id, recipient } => crate::retained_bus::after_register(
            bus,
            ty,
            actor_id,
            recipient,
        ),
        BusEvent::Unregistered { ty, actor_id } => crate::retained_bus::after_unregister(
            bus,
            ty,
            actor_id,
        ),
    }
}

/// The bus after a sequence of events.
pub open spec fn after_events<M, R>(
    bus: Map<MessageType, Topic<M, R>>,
    events: Seq<BusEvent<M, R>>,
) -> Map<MessageType, Topic<M, R>>
    decreases events.len(),
{
    if events.len() == 0 {
        bus
    } else {
        after_event(after_events(bus, events.drop_last()), events.last())
    }
}

/// Whether the event leaves the retained message of type `ty` as it is: it is no retained publish
/// of the type, and does not end the last registration for the type.
pub open spec fn keeps_retained<M, R>(
    bus: Map<MessageType, Topic<M, R>>,
    event: BusEvent<M, R>,
    ty: MessageType,
) -> bool {
    event.concerns() == ty ==> match event {
        BusEvent::Published { publish, .. } => !publish.retained,
        BusEvent::Unregistered { actor_id, .. } => !crate::retained_bus::is_last(bus, ty, actor_id),
        _ => true,
    }
}

/// Whether each of the events leaves the retained message of type `ty` as it is.
pub open spec fn all_keep_retained<M, R>(
    bus: Map<MessageType, Topic<M, R>>,
    events: Seq<BusEvent<M, R>>,
    ty: MessageType,
) -> bool
    decreases events.len(),
{
    events.len() > 0 ==> {
        &&& all_keep_retained(bus, events.drop_last(), ty)
        &&& keeps_retained(after_events(bus, events.drop_last()), events.last(), ty)
    }
}

/// Whether none of the events touches the registration of an actor for messages of type `ty`.
pub open spec fn none_touches<M, R>(
    events: Seq<BusEvent<M, R>>,
    ty: MessageType,
    actor_id: ActorId,
) -> bool {
    forall|i: int| 0 <= i < events.len() ==> !(#[trigger] events[i]).touches(ty, actor_id)
}

/// A retained message stays until a retained publish of its type replaces it or the last
/// registration for its type ends: every other event keeps it.
pub proof fn law_retained_message_stays<M, R>(
    bus: Map<MessageType, Topic<M, R>>,
    event: BusEvent<M, R>,
    ty: MessageType,
)
    requires
        keeps_retained(bus, event, ty),
    ensures
        crate::retained_bus::topic_of(after_event(bus, event), ty).retained
            == crate::retained_bus::topic_of(bus, ty).retained,
{
}

/// A retained publish is read back as the retained message of its type, whatever has happened
/// since that keeps it.
pub proof fn law_retained_message_is_read_back<M, R>(
    bus: Map<MessageType, Topic<M, R>>,
    ty: MessageType,
    message: M,
    since: Seq<BusEvent<M, R>>,
)
    requires
        all_keep_retained(
            crate::retained_bus::after_publish(bus, ty, Publish { message, retained: true }),
            since,
            ty,
        ),
    ensures
        crate::retained_bus::topic_of(
            after_events(
                crate::retained_bus::after_publish(bus, ty, Publish { message, retained: true }),
                since,
            ),
            ty,
        ).retained == Some(message),
    decreases since.len(),
{
    if since.len() > 0 {
        let rest = since.drop_last();
        law_retained_message_is_read_back(bus, ty, message, rest);
        law_retained_message_stays(
            after_events(
                crate::retained_bus::after_publish(bus, ty, Publish { message, retained: true }),
                rest,
            ),
            since.last(),
            ty,
        );
    }
}

/// An unretained publish neither updates nor clears the retained message of any type. It changes
/// nothing but that the bus has heard of the type.
pub proof fn law_unretained_publish_keeps_retained<M, R>(
    bus: Map<MessageType, Topic<M, R>>,
    ty: MessageType,
    message: M,
    other: MessageType,
)
    ensures
        ({
            let after = crate::retained_bus::after_publish(
                bus,
                ty,
                Publish { message, retained: false },
            );
            crate::retained_bus::topic_of(after, other) == crate::retained_bus::topic_of(bus, other)
        }),
{
}

/// An actor that registers is told the message that was retained last, whatever has happened
/// since that keeps it; an actor that is registered already is not told it again.
pub proof fn law_newcomer_is_told_retained_message<M, R>(
    bus: Map<MessageType, Topic<M, R>>,
    ty: MessageType,
    message: M,
    since: Seq<BusEvent<M, R>>,
    actor_id: ActorId,
    recipient: R,
)
    requires
        all_keep_retained(
            crate::retained_bus::after_publish(bus, ty, Publish { message, retained: true }),
            since,
            ty,
        ),
    ensures
        ({
            let after = after_events(
                crate::retained_bus::after_publish(bus, ty, Publish { message, retained: true }),
                since,
            );
            let registered = crate::retained_bus::after_register(after, ty, actor_id, recipient);
            &&& !crate::retained_bus::topic_of(after, ty).recipients.contains_key(actor_id)
                ==> crate::retained_bus::greeting_of(after, ty, actor_id) == Some(message)
            &&& crate::retained_bus::greeting_of(registered, ty, actor_id) is None
        }),
{
    law_retained_message_is_read_back(bus, ty, message, since);
}

/// Messages of one type concern no other: what the bus knows of the others stays as it is.
pub proof fn law_types_are_independent<M, R>(
    bus: Map<MessageType, Topic<M, R>>,
    event: BusEvent<M, R>,
    other: MessageType,
)
    requires
        event.concerns() != other,
    ensures
        after_event(bus, event).get(other) == bus.get(other),
{
}

/// An event changes the registration of no actor that it does not touch.
pub proof fn law_other_registrations_are_kept<M, R>(
    bus: Map<MessageType, Topic<M, R>>,
    event: BusEvent<M, R>,
    ty: MessageType,
    actor_id: ActorId,
)
    requires
        !event.touches(ty, actor_id),
    ensures
        crate::retained_bus::topic_of(after_event(bus, event), ty).recipients.get(actor_id)
            == crate::retained_bus::topic_of(bus, ty).recipients.get(actor_id),
{
    if event.concerns() == ty && bus.contains_key(ty) {
        if let BusEvent::Unregistered { actor_id: other, .. } = event {
            let rest = bus[ty].recipients.remove(other);
            assert(rest.get(actor_id) == bus[ty].recipients.get(actor_id));
            if crate::retained_bus::is_last(bus, ty, other) {
                assert(!rest.contains_key(actor_id));
            }
        }
    }
}

/// A registered actor is among those that a publish of its type is told to, whatever happens,
/// until its registration ends or it is found not to be alive; once its registration has ended,
/// it is not among them.
pub proof fn law_registration_lasts_until_it_ends<M, R>(
    bus: Map<MessageType, Topic<M, R>>,
    ty: MessageType,
    actor_id: ActorId,
    recipient: R,
    since: Seq<BusEvent<M, R>>,
)
    requires
        none_touches(since, ty, actor_id),
    ensures
        ({
            let registered = after_events(
                crate::retained_bus::after_register(bus, ty, actor_id, recipient),
                since,
            );
            let ended = after_events(
                crate::retained_bus::after_unregister(bus, ty, actor_id),
                since,
            );
            &&& crate::retained_bus::topic_of(registered, ty).recipients.get(actor_id) == Some(
                recipient,
            )
            &&& !crate::retained_bus::topic_of(ended, ty).recipients.contains_key(actor_id)
        }),
    decreases since.len(),
{
    let registered = crate::retained_bus::after_register(bus, ty, actor_id, recipient);
    let ended = crate::retained_bus::after_unregister(bus, ty, actor_id);
    if since.len() > 0 {
        let rest = since.drop_last();
        assert forall|i: int| 0 <= i < rest.len() implies !(#[trigger] rest[i]).touches(
            ty,
            actor_id,
        ) by {
            assert(rest[i] == since[i]);
        }
        law_registration_lasts_until_it_ends(bus, ty, actor_id, recipient, rest);
        assert(since.last() == since[since.len() - 1]);
        law_other_registrations_are_kept(
            after_events(registered, rest),
            since.last(),
            ty,
            actor_id,
        );
        law_other_registrations_are_kept(after_events(ended, rest), since.last(), ty, actor_id);
    }
}

/// When the last registration for a type ends, the bus forgets the type, its retained message
/// too.
pub proof fn law_last_unregister_forgets_the_type<M, R>(
    bus: Map<MessageType, Topic<M, R>>,
    ty: MessageType,
    actor_id: ActorId,
)
    requires
        crate::retained_bus::topic_of(bus, ty).recipients.dom().subset_of(set![actor_id]),
    ensures
        crate::retained_bus::topic_of(
            crate::retained_bus::after_unregister(bus, ty, actor_id),
            ty,
        ) == Topic::<M, R>::initial(),
{
    if bus.contains_key(ty) {
        assert(bus[ty].recipients.remove(actor_id) =~= Map::<ActorId, R>::empty());
    }
}

/// Telling a message ends no registration if every actor accepted it, and never that of an actor
/// that is alive.
pub proof fn law_living_actors_stay_registered<M, R>(
    bus: Map<MessageType, Topic<M, R>>,
    ty: MessageType,
    outcomes: Seq<TellOutcome>,
    actor_id: ActorId,
)
    ensures
        ({
            let before = crate::retained_bus::topic_of(bus, ty).recipients;
            let after = crate::retained_bus::topic_of(
                crate::retained_bus::after_tell_outcomes(bus, ty, outcomes),
                ty,
            ).recipients;
            &&& (forall|i: int|
                0 <= i < outcomes.len() ==> (#[trigger] outcomes[i]).delivered) ==> after == before
            &&& (forall|i: int|
                0 <= i < outcomes.len() && (#[trigger] outcomes[i]).actor_id == actor_id
                    ==> outcomes[i].alive) ==> after.get(actor_id) == before.get(actor_id)
        }),
{
}

/// Whether every message and every recipient that the bus holds belongs to the type that it is
/// held for.
pub open spec fn well_typed<M, R>(
    bus: Map<MessageType, Topic<M, R>>,
    message_of: spec_fn(MessageType, M) -> bool,
    recipient_of: spec_fn(MessageType, R) -> bool,
) -> bool {
    forall|ty: MessageType| #[trigger]
        bus.contains_key(ty) ==> {
            &&& bus[ty].retained matches Some(message) ==> message_of(ty, message)
            &&& forall|actor_id: ActorId| #[trigger]
                bus[ty].recipients.contains_key(actor_id) ==> recipient_of(
                    ty,
                    bus[ty].recipients[actor_id],
                )
        }
}

/// The bus never mixes types up: as long as each message is published, and each actor registered,
/// under the type that it is of, what the bus holds for a type is of that type. So a message or
/// recipient that was erased to go on the bus can be read back at its type.
pub proof fn law_types_are_not_mixed_up<M, R>(
    bus: Map<MessageType, Topic<M, R>>,
    message_of: spec_fn(MessageType, M) -> bool,
    recipient_of: spec_fn(MessageType, R) -> bool,
    event: BusEvent<M, R>,
)
    requires
        well_typed(bus, message_of, recipient_of),
        match event {
            BusEvent::Published { ty, publish } => message_of(ty, publish.message),
            BusEvent::Registered { ty, recipient, .. } => recipient_of(ty, recipient),
            _ => true,
        },
    ensures
        well_typed(Map::<MessageType, Topic<M, R>>::empty(), message_of, recipient_of),
        well_typed(after_event(bus, event), message_of, recipient_of),
{
}

} // verus!
