//! Channels whose senders are counted, and the subchannels made from them.

use crate::multiplex::counted::error::{multiplex_error, MultiplexError, MultiplexErrorView};
use crate::multiplex::counted::protocol::MultiMessage;
use crate::multiplex::counted::receiver::{
    are_outcomes, has_room, left_by_former, message_handled, named_in, outcomes_of, to_connect,
    ConnectOutcome,
    MultiReceiver, MultiReceiverView, ReceptionContext, SubChannelReceiver,
};
use crate::multiplex::counted::sender::{
    MultiSender, MultiSenderView, Outgoing, SubChannelSender,
};
use crate::multiplex::receiver::{PayloadMailboxes, PayloadMap};
use crate::multiplex::subchannel_lifecycle::SubSenderView;
use crate::mux::error::IpcError;
use crate::mux::mailbox::MailboxView;
use crate::mux::protocol::{ClientId, ResponseReceiver, ResponseSender, SubChannelId};
use crate::mux::sender::{MultiSenderId, SourceTable, SubChannelDisconnector};
use crate::mux::sender_id::ForwardSender;
use crate::mux::subchannel_lifecycle::SubReceiverProxy;
use crate::mux::text::join;
use crate::mux::uuids::{is_random_uuid, new_uuid, Uuid};
use std::collections::VecDeque;
use std::marker::PhantomData;
use std::sync::Arc;
use vstd::prelude::*;

verus! {

/// What a process draws at random once.
#[derive(Clone, Copy, PartialEq, Eq, Structural, Debug)]
pub struct Origin {
    /// The source at which the subchannels of the process are created.
    pub source: Uuid,
    /// The id of no subchannel.
    pub empty: SubChannelId,
}

impl Origin {
    /// Two random UUIDs.
    pub fn new() -> (origin: Origin)
        ensures
            is_random_uuid(origin.source),
            is_random_uuid(origin.empty.0),
    {
        Origin { source: new_uuid(), empty: SubChannelId::new() }
    }
}

/// The sending end of a subchannel for messages of type `T`. It can be sent in
/// messages on other subchannels and can be cloned.
pub struct SubSender<T> {
    pub sub_channel_sender: SubChannelSender,
    pub phantom: PhantomData<T>,
}

impl<T> Clone for SubSender<T> {
    fn clone(&self) -> (same: SubSender<T>)
        ensures
            same.sub_channel_sender == self.sub_channel_sender,
    {
        SubSender { sub_channel_sender: self.sub_channel_sender.clone(), phantom: PhantomData }
    }
}

impl<T> SubSender<T> {
    /// The sending end of a new subchannel over the channel to a one-shot
    /// server, and the message that announces the subchannel there.
    pub fn connect(channel: &MultiSender, id: MultiSenderId, origin: Uuid, name: String) -> (connected:
        (Self, Outgoing))
        ensures
            is_random_uuid(connected.0.sub_channel_sender.sub_channel_id.0),
            *connected.0.sub_channel_sender.ipc_sender == channel@.ipc_sender,
            connected.0.sub_channel_sender.ipc_sender_uuid == channel@.uuid,
            connected.0.sub_channel_sender.sender_id == channel@.sender_id,
            connected.0.sub_channel_sender.multi_sender == id,
            *connected.0.sub_channel_sender.disconnector == (SubChannelDisconnector {
                sub_channel_id: connected.0.sub_channel_sender.sub_channel_id,
                ipc_sender: connected.0.sub_channel_sender.ipc_sender,
                source: origin,
                multi_sender: id,
            }),
            *connected.1.to == channel@.ipc_sender,
            connected.1.message == MultiMessage::SubChannelId(
                connected.0.sub_channel_sender.sub_channel_id,
                name,
            ),
    {
        let sender = SubChannelSender::new(channel, id, origin);
        let announcement = channel.notify_sub_channel(sender.sub_channel_id(), name);
        (SubSender { sub_channel_sender: sender, phantom: PhantomData }, announcement)
    }
}

/// The receiving end of a subchannel for messages of type `T`.
pub struct SubReceiver<T> {
    pub sub_channel_receiver: SubChannelReceiver,
    pub phantom: PhantomData<T>,
}

/// Both ends of an IPC channel, from which subchannels are made.
pub struct Channel {
    pub multi_sender: MultiSender,
    pub multi_sender_id: MultiSenderId,
    pub multi_receiver: MultiReceiver,
}

/// The ends of a new channel: one client is connected, with a random id, and
/// nothing else is known.
pub open spec fn new_channel(
    channel: Channel,
    ipc_sender: ForwardSender,
    response_sender: ResponseSender,
    response_receiver: ResponseReceiver,
) -> bool {
    let sender = channel.multi_sender@;
    &&& channel.multi_sender_id == ipc_sender.handle
    &&& is_random_uuid(sender.client_id.0)
    &&& is_random_uuid(sender.uuid)
    &&& is_random_uuid(channel.multi_receiver@.uuid)
    &&& sender == MultiSenderView {
        client_id: sender.client_id,
        ipc_sender,
        uuid: sender.uuid,
        sender_id: sender.sender_id,
        response_receiver,
        proxies: Map::empty(),
    }
    &&& channel.multi_receiver@ == MultiReceiverView {
        clients: map![sender.client_id.0 => response_sender],
        ..MultiReceiverView::fresh(channel.multi_receiver@.uuid)
    }
}

/// The ends of a multiplexing channel, given what came of creating its forward
/// and its response channel.
///
/// A multiplexing channel represents a fixed collection of IPC resources:
/// subchannels consume no further ones.
pub fn multi_channel(
    forward: Result<Arc<ForwardSender>, IpcError>,
    response: Result<(ResponseSender, ResponseReceiver), IpcError>,
    sources: &mut SourceTable,
) -> (channel: Result<Channel, MultiplexError>)
    requires
        old(sources).wf(),
        !old(sources).exhausted(),
    ensures
        final(sources).wf(),
        (match channel {
            Ok(channel) => {
                &&& forward is Ok
                &&& response is Ok
                &&& !old(sources)@.contains_key(channel.multi_sender@.sender_id)
                &&& final(sources)@ == old(sources)@.insert(
                    channel.multi_sender@.sender_id,
                    Set::empty(),
                )
                &&& new_channel(
                    channel,
                    *forward->Ok_0,
                    response->Ok_0.0,
                    response->Ok_0.1,
                )
            },
            Err(e) => {
                &&& forward is Err || response is Err
                &&& e == (match forward {
                    Err(e) => multiplex_error(e),
                    Ok(_) => multiplex_error(response->Err_0),
                })
                &&& final(sources)@ == old(sources)@
            },
        }),
{
    let ipc_sender = match forward {
        Ok(ipc_sender) => ipc_sender,
        Err(e) => {
            return Err(MultiplexError::from(e));
        },
    };
    let (response_sender, response_receiver) = match response {
        Ok(response) => response,
        Err(e) => {
            return Err(MultiplexError::from(e));
        },
    };
    let client_id = ClientId::new();
    let multi_receiver = MultiReceiver::with_client(new_uuid(), client_id, response_sender);
    let multi_sender_id: MultiSenderId = ipc_sender.handle;
    let multi_sender = MultiSender::new(
        client_id,
        ipc_sender,
        new_uuid(),
        response_receiver,
        sources,
    );
    Ok(Channel { multi_sender, multi_sender_id, multi_receiver })
}

impl Channel {
    /// Constructs a new channel.
    pub fn new(
        forward: Result<Arc<ForwardSender>, IpcError>,
        response: Result<(ResponseSender, ResponseReceiver), IpcError>,
        sources: &mut SourceTable,
    ) -> (channel: Result<Channel, MultiplexError>)
        requires
            old(sources).wf(),
            !old(sources).exhausted(),
        ensures
            final(sources).wf(),
            (match channel {
                Ok(channel) => {
                    &&& forward is Ok
                    &&& response is Ok
                    &&& !old(sources)@.contains_key(channel.multi_sender@.sender_id)
                    &&& final(sources)@ == old(sources)@.insert(
                        channel.multi_sender@.sender_id,
                        Set::empty(),
                    )
                    &&& new_channel(
                        channel,
                        *forward->Ok_0,
                        response->Ok_0.0,
                        response->Ok_0.1,
                    )
                },
                Err(e) => {
                    &&& forward is Err || response is Err
                    &&& e == (match forward {
                        Err(e) => multiplex_error(e),
                        Ok(_) => multiplex_error(response->Err_0),
                    })
                    &&& final(sources)@ == old(sources)@
                },
            }),
    {
        multi_channel(forward, response, sources)
    }

    /// Constructs a new subchannel at the source `origin`: its sending and its
    /// receiving end.
    pub fn sub_channel<T>(&mut self, origin: Uuid, mailboxes: &mut PayloadMailboxes) -> (ends: (
        SubSender<T>,
        SubReceiver<T>,
    ))
        requires
            old(mailboxes).wf(),
            !old(mailboxes).exhausted(),
        ensures
            final(mailboxes).wf(),
            final(self).multi_sender_id == old(self).multi_sender_id,
            ({
                let sender = ends.0.sub_channel_sender;
                let receiver = ends.1.sub_channel_receiver;
                &&& is_random_uuid(sender.sub_channel_id.0)
                &&& *sender.ipc_sender == old(self).multi_sender@.ipc_sender
                &&& sender.ipc_sender_uuid == old(self).multi_sender@.uuid
                &&& sender.sender_id == old(self).multi_sender@.sender_id
                &&& sender.multi_sender == old(self).multi_sender_id
                &&& *sender.disconnector == SubChannelDisconnector {
                    sub_channel_id: sender.sub_channel_id,
                    ipc_sender: sender.ipc_sender,
                    source: origin,
                    multi_sender: old(self).multi_sender_id,
                }
                &&& receiver.sub_channel_id == sender.sub_channel_id
                &&& final(self).multi_sender@ == MultiSenderView {
                    proxies: old(self).multi_sender@.proxies.insert(
                        sender.sub_channel_id.0,
                        false,
                    ),
                    ..old(self).multi_sender@
                }
                &&& final(self).multi_receiver@ == old(self).multi_receiver@.with_sub_channel(
                    sender.sub_channel_id,
                    SubSenderView::initial(receiver.mailbox, origin),
                )
                &&& !old(mailboxes)@.contains_key(receiver.mailbox)
                &&& final(mailboxes)@ == left_by_former(
                    old(self).multi_receiver@,
                    sender.sub_channel_id,
                    old(mailboxes)@.insert(receiver.mailbox, MailboxView::opened()),
                )
            }),
    {
        let sub_channel_sender = SubChannelSender::new(
            &self.multi_sender,
            self.multi_sender_id,
            origin,
        );
        let scid = sub_channel_sender.sub_channel_id();
        self.multi_sender.insert_sub_receiver_proxy(scid, SubReceiverProxy::new());
        let sub_channel_receiver = self.multi_receiver.attach(scid, origin, mailboxes);
        (
            SubSender { sub_channel_sender, phantom: PhantomData },
            SubReceiver { sub_channel_receiver, phantom: PhantomData },
        )
    }
}

/// A receiving end with a random UUID and without clients has handled the first
/// message, and is what was accepted if that succeeded.
pub open spec fn connection_accepted(
    boxes: PayloadMap,
    context: ReceptionContext,
    message: MultiMessage,
    outcomes: Seq<ConnectOutcome>,
    accepted: Result<MultiReceiver, MultiplexError>,
    boxes_after: PayloadMap,
    context_after: ReceptionContext,
) -> bool {
    exists|uuid: Uuid, result: Result<(), MultiplexError>, receiver: MultiReceiverView|
        {
            &&& is_random_uuid(uuid)
            &&& #[trigger] message_handled(
                MultiReceiverView::fresh(uuid),
                boxes,
                context,
                message,
                outcomes,
                result,
                receiver,
                boxes_after,
                context_after,
            )
            &&& match result {
                Ok(()) => accepted is Ok && accepted->Ok_0@ == receiver,
                Err(e) => accepted == Err::<MultiReceiver, MultiplexError>(e),
            }
        }
}

/// Accepts the connection of one client.
pub struct OneShotMultiServer {}

impl OneShotMultiServer {
    /// The receiving end of the channel over which a client has connected,
    /// given the first message, which is handled.
    pub fn accept(
        message: MultiMessage,
        outcomes: VecDeque<ConnectOutcome>,
        context: &mut ReceptionContext,
        mailboxes: &mut PayloadMailboxes,
    ) -> (accepted: Result<MultiReceiver, MultiplexError>)
        requires
            old(mailboxes).wf(),
            outcomes_of(outcomes@, to_connect(named_in(message))),
        ensures
            final(mailboxes).wf(),
            final(mailboxes).exhausted() == old(mailboxes).exhausted(),
            connection_accepted(
                old(mailboxes)@,
                *old(context),
                message,
                outcomes@,
                accepted,
                final(mailboxes)@,
                *final(context),
            ),
    {
        let uuid: Uuid = new_uuid();
        let mut receiver = MultiReceiver::new(uuid);
        assert(has_room(receiver@, message));
        let result = receiver.handle(message, outcomes, context, mailboxes);
        assert(message_handled(
            MultiReceiverView::fresh(uuid),
            old(mailboxes)@,
            *old(context),
            message,
            outcomes@,
            result,
            receiver@,
            mailboxes@,
            *context,
        ));
        match result {
            Ok(()) => Ok(receiver),
            Err(e) => Err(e),
        }
    }

    /// Accepts a connection as [`OneShotMultiServer::accept`] does, or returns
    /// `None` if the outcomes are not those of connecting the IPC senders in
    /// the first message.
    pub fn checked_accept(
        message: MultiMessage,
        outcomes: VecDeque<ConnectOutcome>,
        context: &mut ReceptionContext,
        mailboxes: &mut PayloadMailboxes,
    ) -> (accepted: Option<Result<MultiReceiver, MultiplexError>>)
        requires
            old(mailboxes).wf(),
        ensures
            final(mailboxes).wf(),
            final(mailboxes).exhausted() == old(mailboxes).exhausted(),
            (match accepted {
                Some(accepted) => {
                    &&& outcomes_of(outcomes@, to_connect(named_in(message)))
                    &&& connection_accepted(
                        old(mailboxes)@,
                *old(context),
                        message,
                        outcomes@,
                        accepted,
                        final(mailboxes)@,
                *final(context),
                    )
                },
                None => {
                    &&& !outcomes_of(outcomes@, to_connect(named_in(message)))
                    &&& final(mailboxes)@ == old(mailboxes)@
                    &&& *final(context) == *old(context)
                },
            }),
    {
        let senders = MultiReceiver::senders_to_connect(&message);
        if are_outcomes(&outcomes, &senders) {
            Some(OneShotMultiServer::accept(message, outcomes, context, mailboxes))
        } else {
            None
        }
    }
}

/// Establishes a subchannel between processes, together with a generated name
/// that the other process connects by. It accepts only one connection.
pub struct SubOneShotServer {
    name: String,
}

impl View for SubOneShotServer {
    type V = Seq<char>;

    closed spec fn view(&self) -> Seq<char> {
        self.name@
    }
}

impl SubOneShotServer {
    /// A server of the given name, which is returned for the other process.
    pub fn new(name: String) -> (server: (SubOneShotServer, String))
        ensures
            server.0@ == name@,
            server.1@ == name@,
    {
        let copy = name.clone();
        (SubOneShotServer { name }, copy)
    }

    /// The subchannel to receive from, if it was announced under the name of
    /// this server.
    pub fn accept(&self, sub_channel_id: SubChannelId, name: String) -> (accepted: Result<
        SubChannelId,
        MultiplexError,
    >)
        ensures
            (match accepted {
                Ok(id) => name@ == self@ && id == sub_channel_id,
                Err(e) => name@ != self@ && e@ == MultiplexErrorView::InternalError(
                    "unexpected sub channel name "@ + name@,
                ),
            }),
    {
        if name == self.name {
            Ok(sub_channel_id)
        } else {
            Err(
                MultiplexError::InternalError(join("unexpected sub channel name ", name.as_str())),
            )
        }
    }
}

} // verus!
