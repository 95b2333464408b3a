//! What the calls of a [`RetainedBus`] do, said of the bus before and after a call, of what the
//! call is given and of what it returns.

use crate::retained_bus::{
    ActorId, GetRetained, MessageType, Publish, RetainedBus, SubState, TellOutcome, Unregister,
};
use vstd::prelude::*;

verus! {

/// Every call accepts every well-formed bus.
pub proof fn law_calls_accept_every_bus<M, R>(
    bus: &mut RetainedBus<M, R>,
    ty: MessageType,
    publish: Publish<M>,
    outcomes: &Vec<TellOutcome>,
    actor_id: ActorId,
    recipient: R,
    unregister: Unregister<M>,
)
    requires
        old(bus).wf(),
    ensures
        call_requires(RetainedBus::<M, R>::handle_publish, (bus, ty, publish)),
        call_requires(RetainedBus::<M, R>::handle_tell_outcomes, (bus, ty, outcomes)),
        call_requires(RetainedBus::<M, R>::handle_register, (bus, ty, actor_id, recipient)),
        call_requires(RetainedBus::<M, R>::handle_unregister, (bus, ty, unregister)),
        call_requires(RetainedBus::<M, R>::get_mut, (bus, ty)),
        call_requires(RetainedBus::<M, R>::entry_or_default, (bus, ty)),
        call_requires(RetainedBus::<M, R>::remove, (bus, ty)),
{
}

/// Every question can be asked of every well-formed bus.
pub proof fn law_questions_accept_every_bus<M, R>(
    bus: RetainedBus<M, R>,
    ty: MessageType,
    actor_id: ActorId,
    request: GetRetained<M>,
)
    requires
        bus.wf(),
    ensures
        call_requires(RetainedBus::<M, R>::get, (&bus, ty)),
        call_requires(RetainedBus::<M, R>::greeting, (&bus, ty, actor_id)),
        call_requires(RetainedBus::<M, R>::handle_get_retained, (&bus, ty, request)),
{
}

/// A new bus has heard of no type.
pub proof fn law_new_bus_is_empty<M, R>(bus: RetainedBus<M, R>, ty: MessageType)
    requires
        call_ensures(<RetainedBus<M, R> as Default>::default, (), bus),
    ensures
        bus.wf(),
        !bus@.contains_key(ty),
{
}

/// The constructors make a message to be retained, and one that is not, of the given message.
pub proof fn law_publish_constructors<M>(m: M, retained: Publish<M>, unretained: Publish<M>)
    requires
        call_ensures(Publish::<M>::retained, (m,), retained),
        call_ensures(Publish::<M>::unretained, (m,), unretained),
    ensures
        retained.message == m && retained.retained,
        unretained.message == m && !unretained.retained,
{
}

/// A publish is told to every actor that is registered for its type, once each, and to no other.
pub proof fn law_publish_is_told_to_all_recipients<M, R>(
    bus: &mut RetainedBus<M, R>,
    ty: MessageType,
    publish: Publish<M>,
    tell: Vec<ActorId>,
    actor_id: ActorId,
    i: int,
    j: int,
)
    requires
        call_ensures(RetainedBus::<M, R>::handle_publish, (bus, ty, publish), tell),
    ensures
        tell@.contains(actor_id) <==> old(bus)@.contains_key(ty)
            && old(bus)@[ty].recipients.contains_key(actor_id),
        0 <= i < j < tell@.len() ==> tell@[i] != tell@[j],
{
    assert(tell@.to_set().contains(actor_id) <==> tell@.contains(actor_id));
}

/// A publish that is to be retained replaces the retained message of its type; one that is not
/// keeps it. Neither changes a registration, or anything of another type.
pub proof fn law_publish_replaces_the_retained_message<M, R>(
    bus: &mut RetainedBus<M, R>,
    ty: MessageType,
    publish: Publish<M>,
    tell: Vec<ActorId>,
    actor_id: ActorId,
    other: MessageType,
)
    requires
        call_ensures(RetainedBus::<M, R>::handle_publish, (bus, ty, publish), tell),
    ensures
        final(bus).wf(),
        final(bus)@.contains_key(ty),
        publish.retained ==> final(bus)@[ty].retained == Some(publish.message),
        !publish.retained ==> final(bus)@[ty].retained == (if old(bus)@.contains_key(ty) {
            old(bus)@[ty].retained
        } else {
            None
        }),
        final(bus)@[ty].recipients.get(actor_id) == (if old(bus)@.contains_key(ty) {
            old(bus)@[ty].recipients.get(actor_id)
        } else {
            None
        }),
        other != ty ==> final(bus)@.get(other) == old(bus)@.get(other),
{
}

/// If any actor did not accept a message of a type, the actors that are no longer alive lose their
/// registration for the type; if all did, none does. The retained message, the other registrations
/// and the other types stay as they are.
pub proof fn law_failed_tells_end_registrations_of_the_dead<M, R>(
    bus: &mut RetainedBus<M, R>,
    ty: MessageType,
    outcomes: &Vec<TellOutcome>,
    actor_id: ActorId,
    other: MessageType,
)
    requires
        call_ensures(RetainedBus::<M, R>::handle_tell_outcomes, (bus, ty, outcomes), ()),
    ensures
        final(bus).wf(),
        final(bus)@.contains_key(ty) <==> old(bus)@.contains_key(ty),
        old(bus)@.contains_key(ty) ==> final(bus)@[ty].retained == old(bus)@[ty].retained,
        old(bus)@.contains_key(ty) ==> final(bus)@[ty].recipients.get(actor_id) == if {
            &&& exists|i: int| 0 <= i < outcomes@.len() && !(#[trigger] outcomes@[i]).delivered
            &&& exists|i: int|
                0 <= i < outcomes@.len() && (#[trigger] outcomes@[i]).actor_id == actor_id
                    && !outcomes@[i].alive
        } {
            None
        } else {
            old(bus)@[ty].recipients.get(actor_id)
        },
        other != ty ==> final(bus)@.get(other) == old(bus)@.get(other),
{
    let gone = crate::retained_bus::dead(outcomes@);
    assert(gone.contains(actor_id) <==> exists|i: int|
        0 <= i < outcomes@.len() && (#[trigger] outcomes@[i]).actor_id == actor_id
            && !outcomes@[i].alive);
}

/// An actor that registers is told the retained message of the type, if there is one and the actor
/// is not registered for the type yet; else nothing.
pub proof fn law_newcomers_are_greeted<M, R>(
    bus: RetainedBus<M, R>,
    ty: MessageType,
    actor_id: ActorId,
    message: Option<&M>,
)
    requires
        call_ensures(RetainedBus::<M, R>::greeting, (&bus, ty, actor_id), message),
    ensures
        message is Some <==> {
            &&& bus@.contains_key(ty)
            &&& bus@[ty].retained is Some
            &&& !bus@[ty].recipients.contains_key(actor_id)
        },
        message matches Some(message) ==> bus@[ty].retained == Some(*message),
{
}

/// Registering puts the actor among the recipients of the type under its new handle, and gives
/// back the handle that it had. The retained message, the other registrations and the other types
/// stay as they are.
pub proof fn law_register_adds_the_recipient<M, R>(
    bus: &mut RetainedBus<M, R>,
    ty: MessageType,
    actor_id: ActorId,
    recipient: R,
    previous: Option<R>,
    other_actor: ActorId,
    other: MessageType,
)
    requires
        call_ensures(
            RetainedBus::<M, R>::handle_register,
            (bus, ty, actor_id, recipient),
            previous,
        ),
    ensures
        final(bus).wf(),
        final(bus)@.contains_key(ty),
        final(bus)@[ty].recipients.get(actor_id) == Some(recipient),
        previous == (if old(bus)@.contains_key(ty) {
            old(bus)@[ty].recipients.get(actor_id)
        } else {
            None
        }),
        other_actor != actor_id ==> final(bus)@[ty].recipients.get(other_actor) == (if
            old(bus)@.contains_key(ty) {
            old(bus)@[ty].recipients.get(other_actor)
        } else {
            None
        }),
        final(bus)@[ty].retained == (if old(bus)@.contains_key(ty) {
            old(bus)@[ty].retained
        } else {
            None
        }),
        other != ty ==> final(bus)@.get(other) == old(bus)@.get(other),
{
}

/// The retained message of a type is read as it is held.
pub proof fn law_retained_message_is_read<M, R>(
    bus: RetainedBus<M, R>,
    ty: MessageType,
    request: GetRetained<M>,
    message: Option<&M>,
)
    requires
        call_ensures(RetainedBus::<M, R>::handle_get_retained, (&bus, ty, request), message),
    ensures
        message is Some <==> bus@.contains_key(ty) && bus@[ty].retained is Some,
        message matches Some(message) ==> bus@[ty].retained == Some(*message),
{
}

/// Ending a registration takes the actor out of the recipients of the type and gives back the
/// handle that it had. If no other actor is registered for the type, the bus forgets the type, and
/// gives back its retained message; else it keeps the retained message and gives back none. The
/// other registrations and the other types stay as they are.
pub proof fn law_unregister_removes_the_recipient<M, R>(
    bus: &mut RetainedBus<M, R>,
    ty: MessageType,
    actor_id: ActorId,
    request: Unregister<M>,
    ended: (Option<R>, Option<M>),
    other_actor: ActorId,
    other: MessageType,
)
    requires
        call_ensures(Unregister::<M>::new, (actor_id,), request),
        call_ensures(RetainedBus::<M, R>::handle_unregister, (bus, ty, request), ended),
    ensures
        final(bus).wf(),
        final(bus)@.contains_key(ty) <==> old(bus)@.contains_key(ty) && exists|left: ActorId|
            left != actor_id && #[trigger] old(bus)@[ty].recipients.contains_key(left),
        final(bus)@.contains_key(ty) ==> {
            &&& !final(bus)@[ty].recipients.contains_key(actor_id)
            &&& other_actor != actor_id ==> final(bus)@[ty].recipients.get(other_actor)
                == old(bus)@[ty].recipients.get(other_actor)
            &&& final(bus)@[ty].retained == old(bus)@[ty].retained
        },
        ended.0 == (if old(bus)@.contains_key(ty) {
            old(bus)@[ty].recipients.get(actor_id)
        } else {
            None
        }),
        ended.1 == (if old(bus)@.contains_key(ty) && !final(bus)@.contains_key(ty) {
            old(bus)@[ty].retained
        } else {
            None
        }),
        other != ty ==> final(bus)@.get(other) == old(bus)@.get(other),
{
    if old(bus)@.contains_key(ty) {
        let rest = old(bus)@[ty].recipients.remove(actor_id);
        if rest != Map::<ActorId, R>::empty() {
            if forall|left: ActorId| !rest.contains_key(left) {
                assert(rest =~= Map::<ActorId, R>::empty());
            }
            let left = choose|left: ActorId| rest.contains_key(left);
            assert(old(bus)@[ty].recipients.contains_key(left));
        } else {
            assert forall|left: ActorId| left != actor_id implies !(
            #[trigger] old(bus)@[ty].recipients.contains_key(left)) by {
                assert(!rest.contains_key(left));
            }
        }
    }
}

/// A request to end a registration names the actor that it was made for.
pub proof fn law_unregister_names_its_actor<M>(
    actor_id: ActorId,
    request: Unregister<M>,
    id: ActorId,
)
    requires
        call_ensures(Unregister::<M>::new, (actor_id,), request),
        call_ensures(Unregister::<M>::actor_id, (&request,), id),
    ensures
        id == actor_id,
{
}

/// What is known of a type is found under it: its retained message and its recipients.
pub proof fn law_types_are_found<M, R>(
    bus: RetainedBus<M, R>,
    ty: MessageType,
    state: Option<&SubState<M, R>>,
)
    requires
        call_ensures(RetainedBus::<M, R>::get, (&bus, ty), state),
    ensures
        state is Some <==> bus@.contains_key(ty),
        state matches Some(state) ==> {
            &&& state.wf()
            &&& state.retained == bus@[ty].retained
            &&& state.recipients@ == bus@[ty].recipients
        },
{
}

/// Removing a type gives back what was known of it and leaves the others.
pub proof fn law_types_are_removed<M, R>(
    bus: &mut RetainedBus<M, R>,
    ty: MessageType,
    state: Option<SubState<M, R>>,
    other: MessageType,
)
    requires
        call_ensures(RetainedBus::<M, R>::remove, (bus, ty), state),
    ensures
        final(bus).wf(),
        state is Some <==> old(bus)@.contains_key(ty),
        state matches Some(state) ==> {
            &&& state.retained == old(bus)@[ty].retained
            &&& state.recipients@ == old(bus)@[ty].recipients
        },
        !final(bus)@.contains_key(ty),
        other != ty ==> final(bus)@.get(other) == old(bus)@.get(other),
{
}

/// What is handed out of a type for change is what is known of it, or nothing retained and no
/// recipients where nothing is. What it is changed to is what is known of the type afterwards; the
/// other types stay as they are.
pub proof fn law_types_are_changed_in_place<M, R>(
    bus: &mut RetainedBus<M, R>,
    ty: MessageType,
    state: &mut SubState<M, R>,
    actor_id: ActorId,
    other: MessageType,
)
    requires
        call_ensures(RetainedBus::<M, R>::entry_or_default, (bus, ty), state),
    ensures
        old(state).wf(),
        old(state).retained == (if old(bus)@.contains_key(ty) {
            old(bus)@[ty].retained
        } else {
            None
        }),
        old(state).recipients@.get(actor_id) == (if old(bus)@.contains_key(ty) {
            old(bus)@[ty].recipients.get(actor_id)
        } else {
            None
        }),
        final(state).wf() ==> final(bus).wf(),
        final(bus)@.contains_key(ty),
        final(bus)@[ty].retained == final(state).retained,
        final(bus)@[ty].recipients == final(state).recipients@,
        other != ty ==> final(bus)@.get(other) == old(bus)@.get(other),
{
}

/// A retained message that is published is the one that is read next, and the one that an actor is
/// greeted with that is not registered for its type.
pub proof fn law_published_message_is_read_next<M, R>(
    bus: &mut RetainedBus<M, R>,
    ty: MessageType,
    message: M,
    publish: Publish<M>,
    tell: Vec<ActorId>,
    request: GetRetained<M>,
    actor_id: ActorId,
    read: Option<&M>,
    greeting: Option<&M>,
)
    requires
        call_ensures(Publish::<M>::retained, (message,), publish),
        call_ensures(RetainedBus::<M, R>::handle_publish, (bus, ty, publish), tell),
    ensures
        call_ensures(
            RetainedBus::<M, R>::handle_get_retained,
            (&*final(bus), ty, request),
            read,
        ) ==> read == Some(&message),
        call_ensures(RetainedBus::<M, R>::greeting, (&*final(bus), ty, actor_id), greeting) ==> (
        if tell@.contains(actor_id) {
            greeting is None
        } else {
            greeting == Some(&message)
        }),
{
    law_publish_is_told_to_all_recipients(bus, ty, publish, tell, actor_id, 0, 0);
}

/// What is handed out of a known type for change is what is known of it, and what it is changed to
/// is what is known of it afterwards; the other types stay as they are. Of a type that is not known
/// nothing is handed out, and nothing changes.
pub proof fn law_known_types_are_changed_in_place<M, R>(
    bus: &mut RetainedBus<M, R>,
    ty: MessageType,
    state: Option<&mut SubState<M, R>>,
    other: MessageType,
)
    requires
        call_ensures(RetainedBus::<M, R>::get_mut, (bus, ty), state),
    ensures
        state is Some <==> old(bus)@.contains_key(ty),
        state matches Some(state) ==> {
            &&& state.wf()
            &&& state.retained == old(bus)@[ty].retained
            &&& state.recipients@ == old(bus)@[ty].recipients
            &&& final(state).wf() ==> final(bus).wf()
            &&& final(bus)@.contains_key(ty)
            &&& final(bus)@[ty].retained == final(state).retained
            &&& final(bus)@[ty].recipients == final(state).recipients@
        },
        other != ty || state is None ==> final(bus)@.get(other) == old(bus)@.get(other),
{
}

/// Nothing is retained of a new type, and no actor is registered for it.
pub proof fn law_new_types_are_empty<M, R>(state: SubState<M, R>, actor_id: ActorId)
    requires
        call_ensures(<SubState<M, R> as Default>::default, (), state),
    ensures
        state.wf(),
        state.retained is None,
        !state.recipients@.contains_key(actor_id),
{
}

} // verus!
