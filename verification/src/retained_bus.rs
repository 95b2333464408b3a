//! A message bus that can retain, for each type of message, the message published last.
//!
//! The bus is used for messages of many types at once. `M` is a message of any of these types and
//! `R` a handle to an actor that receives messages; a [`MessageType`] says which type is meant.
//! This module decides who is told what. Delivery is left to the caller.

use crate::linear_map::{Key, LinearMap};
use std::marker::PhantomData;
use vstd::prelude::*;

verus! {

/// A type of messages.
#[derive(Debug, Copy, Clone, PartialEq, Eq, Hash, Structural)]
pub struct MessageType(pub u64);

impl Key for MessageType {
    fn same(&self, other: &Self) -> (r: bool) {
        *self == *other
    }
}

/// The unique id of an actor.
#[derive(Debug, Copy, Clone, PartialEq, Eq, Hash, Structural)]
pub struct ActorId(pub u64);

impl Key for ActorId {
    fn same(&self, other: &Self) -> (r: bool) {
        *self == *other
    }
}

/// What the bus knows of one type of messages, as mathematical values.
#[verifier::ext_equal]
pub struct Topic<M, R> {
    /// The retained message.
    pub retained: Option<M>,
    /// The actors that receive messages of this type.
    pub recipients: Map<ActorId, R>,
}

/// What the bus knows of one type of messages.
#[derive(Debug)]
pub struct SubState<M, R> {
    /// The retained message.
    pub retained: Option<M>,
    /// The actors that receive messages of this type.
    pub recipients: LinearMap<ActorId, R>,
}

impl<M, R> View for SubState<M, R> {
    type V = Topic<M, R>;

    open spec fn view(&self) -> Topic<M, R> {
        Topic { retained: self.retained, recipients: self.recipients@ }
    }
}

impl<M, R> SubState<M, R> {
    /// No actor is listed twice.
    pub open spec fn wf(&self) -> bool {
        self.recipients.wf()
    }
}

impl<M, R> Topic<M, R> {
    /// No retained message and no recipients.
    pub open spec fn initial() -> Topic<M, R> {
        Topic { retained: None, recipients: Map::empty() }
    }
}

impl<M, R> Default for SubState<M, R> {
    fn default() -> (state: Self)
        ensures
            state.wf(),
            state@ == Topic::<M, R>::initial(),
    {
        SubState { retained: None, recipients: LinearMap::new() }
    }
}

/// A message to publish.
#[derive(Debug, Copy, Clone, Default)]
pub struct Publish<M> {
    pub message: M,
    pub retained: bool,
}

impl<M> Publish<M> {
    /// Construct a new unretained publish.
    ///
    /// If there exists a retained message stored in the [`RetainedBus`] for this message type, it
    /// is neither updated nor cleared by this message.
    pub fn unretained(m: M) -> (publish: Self)
        ensures
            publish == (Publish { message: m, retained: false }),
    {
        Publish { message: m, retained: false }
    }

    /// Construct a new retained publish.
    ///
    /// It will update the retained message in the [`RetainedBus`].
    pub fn retained(m: M) -> (publish: Self)
        ensures
            publish == (Publish { message: m, retained: true }),
    {
        Publish { message: m, retained: true }
    }
}

/// Get the current retained value for messages of type `M` (if any).
#[derive(Debug)]
pub struct GetRetained<M>(PhantomData<M>);

impl<M> Default for GetRetained<M> {
    fn default() -> (request: Self) {
        GetRetained(PhantomData)
    }
}

impl<M> Clone for GetRetained<M> {
    fn clone(&self) -> (request: Self)
        ensures
            request == *self,
    {
        GetRetained(self.0)
    }
}

impl<M> Copy for GetRetained<M> {

}

/// End the registration of an actor for messages of type `M`.
pub struct Unregister<M> {
    actor_id: ActorId,
    _phantom: PhantomData<M>,
}

impl<M> Unregister<M> {
    /// The actor whose registration is to end.
    pub closed spec fn actor(&self) -> ActorId {
        self.actor_id
    }

    /// A request to end the registration of the actor `id`.
    pub fn new(id: ActorId) -> (request: Self)
        ensures
            request.actor() == id,
    {
        Unregister { actor_id: id, _phantom: PhantomData }
    }

    /// The actor whose registration is to end.
    pub fn actor_id(&self) -> (id: ActorId)
        ensures
            id == self.actor(),
    {
        self.actor_id
    }
}

/// How telling a message to an actor went.
#[derive(Debug, Copy, Clone, PartialEq, Eq)]
pub struct TellOutcome {
    /// The actor.
    pub actor_id: ActorId,
    /// Whether the message was accepted.
    pub delivered: bool,
    /// Whether the actor is still alive.
    pub alive: bool,
}

/// A message bus that can retain messages.
///
/// [`Publish`] messages may set the `retained` flag to indicate that the message should be
/// retained on the bus. When present, newly registered actors receive the current retained
/// message immediately.
#[derive(Debug)]
pub struct RetainedBus<M, R> {
    subscriptions: LinearMap<MessageType, SubState<M, R>>,
}

impl<M, R> View for RetainedBus<M, R> {
    type V = Map<MessageType, Topic<M, R>>;

    closed spec fn view(&self) -> Map<MessageType, Topic<M, R>> {
        self.subscriptions@.map_values(|state: SubState<M, R>| state@)
    }
}

impl<M, R> Default for RetainedBus<M, R> {
    fn default() -> (bus: Self)
        ensures
            bus.wf(),
            bus@ == Map::<MessageType, Topic<M, R>>::empty(),
    {
        let bus = RetainedBus { subscriptions: LinearMap::new() };
        assert(bus@ =~= Map::<MessageType, Topic<M, R>>::empty());
        bus
    }
}

impl<M, R> RetainedBus<M, R> {
    /// No message type is listed twice, and no actor twice for one type.
    pub closed spec fn wf(&self) -> bool {
        &&& self.subscriptions.wf()
        &&& forall|ty: MessageType| #[trigger]
            self.subscriptions@.contains_key(ty) ==> self.subscriptions@[ty].wf()
    }

    /// What is known of messages of type `ty`, if anything is.
    pub fn get(&self, ty: MessageType) -> (state: Option<&SubState<M, R>>)
        requires
            self.wf(),
        ensures
            match state {
                Some(state) => state.wf() && self@.contains_key(ty) && state@ == self@[ty],
                None => !self@.contains_key(ty),
            },
    {
        self.subscriptions.get(&ty)
    }

    /// What is known of messages of type `ty`, if anything is, for change in place.
    pub fn get_mut(&mut self, ty: MessageType) -> (state: Option<&mut SubState<M, R>>)
        requires
            old(self).wf(),
        ensures
            match state {
                Some(state) => {
                    &&& old(self)@.contains_key(ty)
                    &&& state.wf()
                    &&& state@ == old(self)@[ty]
                    &&& final(state).wf() ==> final(self).wf()
                    &&& final(self)@ == old(self)@.insert(ty, final(state)@)
                },
                None => !old(self)@.contains_key(ty) && *final(self) == *old(self),
            },
    {
        self.subscriptions.get_mut(&ty)
    }

    /// What is known of messages of type `ty`, for change in place. Where nothing is known yet,
    /// there is no retained message and there are no recipients.
    pub fn entry_or_default(&mut self, ty: MessageType) -> (state: &mut SubState<M, R>)
        requires
            old(self).wf(),
        ensures
            state.wf(),
            state@ == topic_of(old(self)@, ty),
            final(state).wf() ==> final(self).wf(),
            final(self)@ == old(self)@.insert(ty, final(state)@),
    {
        if !self.subscriptions.contains_key(&ty) {
            self.subscriptions.insert(ty, SubState::default());
        }
        self.subscriptions.get_mut(&ty).unwrap()
    }

    /// Forgets what is known of messages of type `ty`, and returns it.
    pub fn remove(&mut self, ty: MessageType) -> (state: Option<SubState<M, R>>)
        requires
            old(self).wf(),
        ensures
            final(self).wf(),
            final(self)@ == old(self)@.remove(ty),
            match state {
                Some(state) => state.wf() && old(self)@.contains_key(ty) && state@ == old(
                    self,
                )@[ty],
                None => !old(self)@.contains_key(ty),
            },
    {
        let state = self.subscriptions.remove(&ty);
        assert(self@ =~= old(self)@.remove(ty));
        state
    }

    /// Takes in a message of type `ty` to publish. Returns the actors to tell it to.
    ///
    /// If the message is to be retained, it takes the place of the retained message. How telling
    /// it went is to be passed to [`RetainedBus::handle_tell_outcomes`].
    pub fn handle_publish(&mut self, ty: MessageType, publish: Publish<M>) -> (tell: Vec<ActorId>)
        requires
            old(self).wf(),
        ensures
            final(self).wf(),
            final(self)@ == after_publish(old(self)@, ty, publish),
            tell@.no_duplicates(),
            tell@.to_set() == topic_of(old(self)@, ty).recipients.dom(),
    {
        let state = self.entry_or_default(ty);
        if publish.retained {
            state.retained = Some(publish.message);
        }
        state.recipients.key_list()
    }

    /// Takes in how telling a message of type `ty` went.
    ///
    /// If any actor did not accept the message, the registrations of the actors that are no
    /// longer alive end.
    pub fn handle_tell_outcomes(&mut self, ty: MessageType, outcomes: &Vec<TellOutcome>)
        requires
            old(self).wf(),
        ensures
            final(self).wf(),
            final(self)@ == after_tell_outcomes(old(self)@, ty, outcomes@),
    {
        let mut any_missing = false;
        let mut i: usize = 0;
        while i < outcomes.len()
            invariant
                i <= outcomes@.len(),
                any_missing == exists|j: int|
                    0 <= j < i && !(#[trigger] outcomes@[j]).delivered,
            decreases outcomes@.len() - i,
        {
            if !outcomes[i].delivered {
                any_missing = true;
            }
            i += 1;
        }
        if !any_missing {
            return;
        }
        let state = match self.get_mut(ty) {
            Some(state) => state,
            None => return,
        };
        let ghost retained = state.retained;
        let ghost before = state.recipients@;
        assert(before =~= before.remove_keys(dead(outcomes@.take(0))));
        let mut j: usize = 0;
        while j < outcomes.len()
            invariant
                j <= outcomes@.len(),
                state.wf(),
                state.retained == retained,
                state.recipients@ == before.remove_keys(dead(outcomes@.take(j as int))),
            decreases outcomes@.len() - j,
        {
            if !outcomes[j].alive {
                state.recipients.remove(&outcomes[j].actor_id);
            }
            proof {
                lemma_dead_next(outcomes@, j as int);
                assert(state.recipients@ =~= before.remove_keys(dead(outcomes@.take(j + 1))));
            }
            j += 1;
        }
        assert(outcomes@.take(j as int) =~= outcomes@);
    }

    /// The message of type `ty` to tell to the actor `actor_id` when it registers: the retained
    /// one, if there is one and the actor is not registered yet.
    pub fn greeting(&self, ty: MessageType, actor_id: ActorId) -> (message: Option<&M>)
        requires
            self.wf(),
        ensures
            match message {
                Some(message) => greeting_of(self@, ty, actor_id) == Some(*message),
                None => greeting_of(self@, ty, actor_id) is None,
            },
    {
        match self.get(ty) {
            Some(state) => {
                if state.recipients.contains_key(&actor_id) {
                    None
                } else {
                    state.retained.as_ref()
                }
            },
            None => None,
        }
    }

    /// Registers the actor `actor_id` for messages of type `ty`. Returns the handle under which
    /// it was registered before, if it was.
    ///
    /// Before this, the actor is to be told its [`RetainedBus::greeting`].
    pub fn handle_register(&mut self, ty: MessageType, actor_id: ActorId, recipient: R) -> (
    previous: Option<R>)
        requires
            old(self).wf(),
        ensures
            final(self).wf(),
            final(self)@ == after_register(old(self)@, ty, actor_id, recipient),
            previous == topic_of(old(self)@, ty).recipients.get(actor_id),
    {
        let state = self.entry_or_default(ty);
        state.recipients.insert(actor_id, recipient)
    }

    /// The retained message of type `ty`, if there is one.
    pub fn handle_get_retained(&self, ty: MessageType, _request: GetRetained<M>) -> (
    message: Option<&M>)
        requires
            self.wf(),
        ensures
            match message {
                Some(message) => topic_of(self@, ty).retained == Some(*message),
                None => topic_of(self@, ty).retained is None,
            },
    {
        match self.get(ty) {
            Some(state) => state.retained.as_ref(),
            None => None,
        }
    }

    /// Ends the registration of an actor for messages of type `ty`. Returns the handle under
    /// which it was registered, if it was.
    ///
    /// If no actor is registered for the type any more, the retained message is dropped from the
    /// bus and returned too.
    pub fn handle_unregister(&mut self, ty: MessageType, request: Unregister<M>) -> (ended: (
        Option<R>,
        Option<M>,
    ))
        requires
            old(self).wf(),
        ensures
            final(self).wf(),
            final(self)@ == after_unregister(old(self)@, ty, request.actor()),
            ended.0 == topic_of(old(self)@, ty).recipients.get(request.actor()),
            ended.1 == if is_last(old(self)@, ty, request.actor()) {
                topic_of(old(self)@, ty).retained
            } else {
                None
            },
    {
        let (recipient, last) = match self.get_mut(ty) {
            Some(state) => {
                let recipient = state.recipients.remove(&request.actor_id);
                (recipient, state.recipients.is_empty())
            },
            None => {
                return (None, None);
            },
        };
        let retained = if last {
            match self.remove(ty) {
                Some(state) => state.retained,
                None => None,
            }
        } else {
            None
        };
        assert(last ==> self@ =~= old(self)@.remove(ty));
        (recipient, retained)
    }
}

/// The bus after a message of type `ty` is published.
pub open spec fn after_publish<M, R>(
    bus: Map<MessageType, Topic<M, R>>,
    ty: MessageType,
    publish: Publish<M>,
) -> Map<MessageType, Topic<M, R>> {
    let topic = topic_of(bus, ty);
    if publish.retained {
        bus.insert(ty, Topic { retained: Some(publish.message), ..topic })
    } else {
        bus.insert(ty, topic)
    }
}

/// The actors that are no longer alive.
pub open spec fn dead(outcomes: Seq<TellOutcome>) -> Set<ActorId> {
    Set::new(
        |actor_id: ActorId|
            exists|i: int|
                0 <= i < outcomes.len() && (#[trigger] outcomes[i]).actor_id == actor_id
                    && !outcomes[i].alive,
    )
}

proof fn lemma_dead_next(outcomes: Seq<TellOutcome>, i: int)
    requires
        0 <= i < outcomes.len(),
    ensures
        dead(outcomes.take(i + 1)) == if outcomes[i].alive {
            dead(outcomes.take(i))
        } else {
            dead(outcomes.take(i)).insert(outcomes[i].actor_id)
        },
{
    let now = outcomes.take(i + 1);
    let before = outcomes.take(i);
    assert forall|a: ActorId| #[trigger]
        dead(now).contains(a) <==> dead(before).contains(a) || (!outcomes[i].alive && a
            == outcomes[i].actor_id) by {
        if dead(now).contains(a) {
            let j = choose|j: int|
                0 <= j < now.len() && (#[trigger] now[j]).actor_id == a && !now[j].alive;
            if j < i {
                assert(before[j] == now[j]);
            }
        }
        if dead(before).contains(a) {
            let j = choose|j: int|
                0 <= j < before.len() && (#[trigger] before[j]).actor_id == a && !before[j].alive;
            assert(now[j] == before[j]);
        }
        if !outcomes[i].alive && a == outcomes[i].actor_id {
            assert(now[i] == outcomes[i]);
        }
    }
    assert(dead(now) =~= if outcomes[i].alive {
        dead(before)
    } else {
        dead(before).insert(outcomes[i].actor_id)
    });
}

/// The bus after messages of type `ty` were told with these outcomes.
pub open spec fn after_tell_outcomes<M, R>(
    bus: Map<MessageType, Topic<M, R>>,
    ty: MessageType,
    outcomes: Seq<TellOutcome>,
) -> Map<MessageType, Topic<M, R>> {
    if bus.contains_key(ty) && exists|i: int|
        0 <= i < outcomes.len() && !(#[trigger] outcomes[i]).delivered {
        bus.insert(
            ty,
            Topic { recipients: bus[ty].recipients.remove_keys(dead(outcomes)), ..bus[ty] },
        )
    } else {
        bus
    }
}

/// The message to tell to an actor when it registers.
pub open spec fn greeting_of<M, R>(
    bus: Map<MessageType, Topic<M, R>>,
    ty: MessageType,
    actor_id: ActorId,
) -> Option<M> {
    let topic = topic_of(bus, ty);
    if topic.recipients.contains_key(actor_id) {
        None
    } else {
        topic.retained
    }
}

/// The bus after an actor is registered.
pub open spec fn after_register<M, R>(
    bus: Map<MessageType, Topic<M, R>>,
    ty: MessageType,
    actor_id: ActorId,
    recipient: R,
) -> Map<MessageType, Topic<M, R>> {
    let topic = topic_of(bus, ty);
    bus.insert(ty, Topic { recipients: topic.recipients.insert(actor_id, recipient), ..topic })
}

/// Whether no other actor than `actor_id` is registered for messages of type `ty`, of which the
/// bus has heard.
pub open spec fn is_last<M, R>(
    bus: Map<MessageType, Topic<M, R>>,
    ty: MessageType,
    actor_id: ActorId,
) -> bool {
    bus.contains_key(ty) && bus[ty].recipients.remove(actor_id) == Map::<ActorId, R>::empty()
}

/// The bus after the registration of an actor has ended.
pub open spec fn after_unregister<M, R>(
    bus: Map<MessageType, Topic<M, R>>,
    ty: MessageType,
    actor_id: ActorId,
) -> Map<MessageType, Topic<M, R>> {
    if !bus.contains_key(ty) {
        bus
    } else if is_last(bus, ty, actor_id) {
        bus.remove(ty)
    } else {
        bus.insert(
            ty,
            Topic { recipients: bus[ty].recipients.remove(actor_id), ..bus[ty] },
        )
    }
}

/// What the bus knows of messages of type `ty`: nothing retained and no recipients, where it has
/// not heard of the type.
pub open spec fn topic_of<M, R>(bus: Map<MessageType, Topic<M, R>>, ty: MessageType) -> Topic<
    M,
    R,
> {
    if bus.contains_key(ty) {
        bus[ty]
    } else {
        Topic::initial()
    }
}

} // verus!
