//! Routing of subchannels to handlers.
//!
//! A router waits for the events of all routed subchannels at once and passes
//! each message to the handler of its subchannel. Routes are added, and the
//! router is shut down, through a proxy, which sends a command and wakes the
//! router up.

pub mod membership;
pub mod receiver_set;
pub mod select;
pub mod sets;

use crate::mux::subchannel_router::receiver_set::{
    collected, receiver_of, RawMessage, SubReceiverSetView, SubSelectionResult,
};
use std::collections::HashMap;
use vstd::prelude::*;
use vstd::string::*;

verus! {

broadcast use vstd::std_specs::hash::group_hash_axioms;

/// Errors related to routing.
#[derive(Clone, Copy, PartialEq, Eq, Structural, Debug)]
pub enum RouterError {
    /// The router is shutting down.
    ShuttingDown,
}

impl RouterError {
    /// The text shown to a user.
    pub fn to_string(&self) -> (text: String)
        ensures
            text@ == "Router shutting down"@,
    {
        String::from_str("Router shutting down")
    }
}

/// The side of a router that its users talk to.
pub struct RouterProxy {
    shutdown: bool,
}

impl View for RouterProxy {
    type V = bool;

    /// Whether the router has been shut down.
    closed spec fn view(&self) -> bool {
        self.shutdown
    }
}

impl RouterProxy {
    /// The proxy of a running router.
    pub fn new() -> (proxy: RouterProxy)
        ensures
            !proxy@,
    {
        RouterProxy { shutdown: false }
    }

    /// Whether a route may be added. It is refused once the router has been
    /// shut down.
    pub fn add_route(&self) -> (may: Result<(), RouterError>)
        ensures
            may == (if self@ {
                Err(RouterError::ShuttingDown)
            } else {
                Ok(())
            }),
    {
        if self.shutdown {
            return Err(RouterError::ShuttingDown);
        }
        Ok(())
    }

    /// Shuts the router down. Returns whether the router has to be told, which
    /// it has to be once.
    pub fn shutdown(&mut self) -> (tell: bool)
        ensures
            final(self)@,
            tell == !old(self)@,
    {
        if self.shutdown {
            return false;
        }
        self.shutdown = true;
        true
    }
}

/// What a router is told by its proxy.
#[derive(Clone, Copy, PartialEq, Eq, Structural, Debug)]
pub enum RouterCommand {
    /// Add a route.
    AddRoute,
    /// Acknowledge and stop.
    Shutdown,
}

/// What a router has to do next.
pub enum RouterAction<H> {
    /// Read a command from the proxy, whose wakeup message has been received.
    ReadCommand(RawMessage),
    /// Pass a message to the handler with the given id.
    Handle(u64, RawMessage),
    /// The given handler will not be called any more.
    Forget(H),
}

/// Passes events to handlers.
pub struct Router<H> {
    msg_wakeup_id: u64,
    handlers: HashMap<u64, H>,
}

/// The mathematical counterpart of [`Router`].
#[verifier::ext_equal]
pub struct RouterView<H> {
    /// The id of the receiver by which the proxy wakes the router up.
    pub wakeup: u64,
    pub handlers: Map<u64, H>,
}

impl<H> View for Router<H> {
    type V = RouterView<H>;

    closed spec fn view(&self) -> RouterView<H> {
        RouterView { wakeup: self.msg_wakeup_id, handlers: self.handlers@ }
    }
}

/// An event is a wakeup message or there is a handler for it.
pub open spec fn expected<H>(router: RouterView<H>, event: SubSelectionResult) -> bool {
    match event {
        SubSelectionResult::MessageReceived(id, _) => id == router.wakeup
            || router.handlers.contains_key(id),
        SubSelectionResult::ChannelClosed(id) => router.handlers.contains_key(id),
    }
}

impl<H> Router<H> {
    /// A router without handlers.
    pub fn new(msg_wakeup_id: u64) -> (router: Router<H>)
        ensures
            router@ == (RouterView { wakeup: msg_wakeup_id, handlers: Map::<u64, H>::empty() }),
    {
        Router { msg_wakeup_id, handlers: HashMap::new() }
    }

    /// Whether an event is a wakeup message or there is a handler for it.
    pub fn expects(&self, event: &SubSelectionResult) -> (expects: bool)
        ensures
            expects == expected(self@, *event),
    {
        match event {
            SubSelectionResult::MessageReceived(id, _) => *id == self.msg_wakeup_id
                || self.handlers.contains_key(id),
            SubSelectionResult::ChannelClosed(id) => self.handlers.contains_key(id),
        }
    }

    /// What to do about an event.
    pub fn run(&mut self, event: SubSelectionResult) -> (action: RouterAction<H>)
        requires
            expected(old(self)@, event),
        ensures
            (match event {
                SubSelectionResult::MessageReceived(id, message) => {
                    &&& final(self)@ == old(self)@
                    &&& action == if id == old(self)@.wakeup {
                        RouterAction::<H>::ReadCommand(message)
                    } else {
                        RouterAction::<H>::Handle(id, message)
                    }
                },
                SubSelectionResult::ChannelClosed(id) => {
                    &&& final(self)@ == RouterView {
                        handlers: old(self)@.handlers.remove(id),
                        ..old(self)@
                    }
                    &&& action == RouterAction::Forget(old(self)@.handlers[id])
                },
            }),
    {
        match event {
            SubSelectionResult::MessageReceived(id, message) => {
                if id == self.msg_wakeup_id {
                    RouterAction::ReadCommand(message)
                } else {
                    RouterAction::Handle(id, message)
                }
            },
            SubSelectionResult::ChannelClosed(id) => {
                let handler: H = self.handlers.remove(&id).unwrap();
                RouterAction::Forget(handler)
            },
        }
    }

    /// Adds the handler of the receiver with the given id.
    pub fn add_route(&mut self, id: u64, handler: H)
        ensures
            final(self)@ == (RouterView {
                handlers: old(self)@.handlers.insert(id, handler),
                ..old(self)@
            }),
    {
        self.handlers.insert(id, handler);
    }

    /// Takes a handler out, to be called and put back.
    pub fn take_handler(&mut self, id: u64) -> (handler: Option<H>)
        ensures
            handler == (if old(self)@.handlers.contains_key(id) {
                Some(old(self)@.handlers[id])
            } else {
                None
            }),
            final(self)@ == (RouterView {
                handlers: old(self)@.handlers.remove(id),
                ..old(self)@
            }),
    {
        self.handlers.remove(&id)
    }

    /// Whether the router stops on the given command.
    pub fn stops_on(command: RouterCommand) -> (stops: bool)
        ensures
            stops == (command == RouterCommand::Shutdown),
    {
        match command {
            RouterCommand::AddRoute => false,
            RouterCommand::Shutdown => true,
        }
    }
}

/// Every receiver that is known by its subchannel is in the set.
pub open spec fn ids_known(set: SubReceiverSetView) -> bool {
    forall|scid: u128| #[trigger] set.ids.contains_key(scid) ==> set.rxs.contains_key(set.ids[scid])
}

/// A set reports events only of receivers in it, so a router with a handler for
/// each receiver has one for each event.
pub proof fn law_events_are_of_members(
    set: SubReceiverSetView,
    messages: Seq<crate::mux::demux::ResolvedMessageOrDisconnect>,
)
    requires
        ids_known(set),
    ensures
        forall|i: int|
            #![trigger collected(set, messages).results[i]]
            0 <= i < collected(set, messages).results.len() ==> set.rxs.contains_key(
                receiver_of(collected(set, messages).results[i]),
            ),
        forall|scid: u128| #[trigger]
            collected(set, messages).ids.contains_key(scid) ==> {
                &&& set.ids.contains_key(scid)
                &&& collected(set, messages).ids[scid] == set.ids[scid]
            },
    decreases messages.len(),
{
    if messages.len() > 0 {
        law_events_are_of_members(set, messages.drop_last());
    }
}

/// Routes are accepted until a router is shut down, and refused ever after. The
/// router has to be told of its shutdown once, however often that is asked for.
pub proof fn law_shut_down_router_refuses(
    fresh: RouterProxy,
    before: Result<(), RouterError>,
    first: &mut RouterProxy,
    told: bool,
    second: &mut RouterProxy,
    told_again: bool,
    after: Result<(), RouterError>,
)
    requires
        call_ensures(RouterProxy::new, (), fresh),
        call_ensures(RouterProxy::add_route, (&fresh,), before),
        *old(first) == fresh,
        call_ensures(RouterProxy::shutdown, (first,), told),
        *old(second) == *final(first),
        call_ensures(RouterProxy::shutdown, (second,), told_again),
        call_ensures(RouterProxy::add_route, (&*final(second),), after),
    ensures
        before is Ok,
        told,
        !told_again,
        after == Err::<(), RouterError>(RouterError::ShuttingDown),
{
}

/// A message for a routed receiver is passed to the handler under its id, which
/// is there, and can be taken out and put back. A wakeup message is no message
/// for a handler. Neither changes the routes.
pub proof fn law_routed_message_reaches_its_handler<H>(
    adding: &mut Router<H>,
    id: u64,
    handler: H,
    running: &mut Router<H>,
    message: RawMessage,
    action: RouterAction<H>,
    taking: &mut Router<H>,
    taken: Option<H>,
)
    requires
        call_ensures(Router::<H>::add_route, (adding, id, handler), ()),
        *old(running) == *final(adding),
        call_ensures(
            Router::<H>::run,
            (running, SubSelectionResult::MessageReceived(id, message)),
            action,
        ),
        *old(taking) == *final(running),
        call_ensures(Router::<H>::take_handler, (taking, id), taken),
    ensures
        id == old(adding)@.wakeup ==> action == RouterAction::<H>::ReadCommand(message),
        id != old(adding)@.wakeup ==> action == RouterAction::<H>::Handle(id, message),
        taken == Some(handler),
        final(running)@ == old(running)@,
        final(taking)@.wakeup == old(adding)@.wakeup,
        !final(taking)@.handlers.contains_key(id),
        forall|other: u64|
            #![trigger final(taking)@.handlers.contains_key(other)]
            #![trigger old(adding)@.handlers.contains_key(other)]
            other != id ==> {
                &&& final(taking)@.handlers.contains_key(other)
                    == old(adding)@.handlers.contains_key(other)
                &&& old(adding)@.handlers.contains_key(other) ==> final(taking)@.handlers[other]
                    == old(adding)@.handlers[other]
            },
{
}

/// The handler of a receiver that has been closed is given up, and no other is.
/// Nothing is expected of that receiver afterwards, unless it is the one by which
/// the router is woken up.
pub proof fn law_closed_route_is_forgotten<H>(
    running: &mut Router<H>,
    id: u64,
    action: RouterAction<H>,
    later: SubSelectionResult,
    expects: bool,
)
    requires
        old(running)@.handlers.contains_key(id),
        call_ensures(
            Router::<H>::run,
            (running, SubSelectionResult::ChannelClosed(id)),
            action,
        ),
        call_ensures(Router::<H>::expects, (&*final(running), &later), expects),
    ensures
        action == RouterAction::Forget(old(running)@.handlers[id]),
        final(running)@.wakeup == old(running)@.wakeup,
        forall|other: u64|
            #![trigger final(running)@.handlers.contains_key(other)]
            #![trigger old(running)@.handlers.contains_key(other)]
            final(running)@.handlers.contains_key(other) == (
            old(running)@.handlers.contains_key(other) && other != id),
        forall|other: u64| #[trigger]
            final(running)@.handlers.contains_key(other) ==> final(running)@.handlers[other]
                == old(running)@.handlers[other],
        later matches SubSelectionResult::MessageReceived(of, _) ==> (expects <==> of
            == old(running)@.wakeup || (of != id && old(running)@.handlers.contains_key(of))),
        later matches SubSelectionResult::ChannelClosed(of) ==> (expects <==> of != id
            && old(running)@.handlers.contains_key(of)),
{
}

/// A router stops when it is told to shut down, and not when a route is added.
pub proof fn law_router_stops_on_shutdown<H>(command: RouterCommand, stops: bool)
    requires
        call_ensures(Router::<H>::stops_on, (command,), stops),
    ensures
        stops <==> command is Shutdown,
{
}

} // verus!
