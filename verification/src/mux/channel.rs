//! Channels and the subchannels made from them.

use crate::mux::demux::{
    named_in, outcomes_of, to_connect, Connection, Demuxer, DemuxerView, Effect, Handled,
    MailboxMap, SubChannelMailboxes,
};
use crate::mux::error::{mux_error, IpcError, MuxError, MuxErrorView};
use crate::mux::protocol::{
    ClientId, MultiMessage, ResponseReceiver, ResponseSender, SubChannelId, ORIGIN,
};
use crate::mux::receiver::{
    receiver_handled, sub_channel_attached, MultiReceiver, MultiReceiverView, SubChannelReceiver,
};
use crate::mux::sender::{
    connected_sender, MultiSender, MultiSenderId, MultiSenderView, SourceTable,
    SubChannelDisconnector, SubChannelSender,
};
use crate::mux::sender_id::ForwardSender;
use crate::mux::subchannel_endpoint::{SubReceiver, SubSender};
use crate::mux::subchannel_lifecycle::SubReceiverProxy;
use crate::mux::text::join;
use crate::mux::uuids::{is_random_uuid, new_uuid};
use std::collections::VecDeque;
use std::sync::Arc;
use vstd::prelude::*;

verus! {

/// Both ends of an IPC channel, from which subchannels are made.
pub struct Channel {
    pub multi_sender: MultiSender,
    pub multi_sender_id: MultiSenderId,
    pub multi_receiver: MultiReceiver,
}

/// The ends of a new channel: the client with the given id is connected and
/// nothing else is known.
pub open spec fn new_channel(
    channel: Channel,
    client_id: ClientId,
    id: MultiSenderId,
    ipc_sender: ForwardSender,
    response_sender: ResponseSender,
    response_receiver: ResponseReceiver,
) -> bool {
    &&& channel.multi_sender_id == id
    &&& is_random_uuid(client_id.0)
    &&& is_random_uuid(channel.multi_sender@.uuid)
    &&& is_random_uuid(channel.multi_receiver@.uuid)
    &&& channel.multi_sender@ == connected_sender(
        client_id,
        ipc_sender,
        channel.multi_sender@.uuid,
        channel.multi_sender@.sender_id,
        response_receiver,
    )
    &&& channel.multi_receiver@.demuxer == DemuxerView {
        clients: map![client_id.0 => response_sender],
        sub_channels: Map::empty(),
        disconnectors: Map::empty(),
        senders: Map::empty(),
    }
}

/// The ends of a multiplexing channel, given what came of creating its forward
/// and its response channel.
///
/// A multiplexing channel represents a fixed collection of IPC resources:
/// subchannels consume no further ones.
pub fn multi_channel(
    id: MultiSenderId,
    forward: Result<Arc<ForwardSender>, IpcError>,
    response: Result<(ResponseSender, ResponseReceiver), IpcError>,
    sources: &mut SourceTable,
) -> (channel: Result<Channel, MuxError>)
    requires
        old(sources).wf(),
        !old(sources).exhausted(),
    ensures
        final(sources).wf(),
        (match channel {
            Ok(channel) => {
                &&& forward is Ok
                &&& response is Ok
                &&& !old(sources)@.contains_key(channel.multi_sender@.sender_id)
                &&& final(sources)@ == old(sources)@.insert(
                    channel.multi_sender@.sender_id,
                    Set::empty(),
                )
                &&& new_channel(
                    channel,
                    channel.multi_sender@.client_id,
                    id,
                    *forward->Ok_0,
                    response->Ok_0.0,
                    response->Ok_0.1,
                )
            },
            Err(e) => {
                &&& forward is Err || response is Err
                &&& e == (match forward {
                    Err(e) => mux_error(e),
                    Ok(_) => mux_error(response->Err_0),
                })
                &&& final(sources)@ == old(sources)@
            },
        }),
{
    let ipc_sender = match forward {
        Ok(ipc_sender) => ipc_sender,
        Err(e) => {
            return Err(MuxError::from(e));
        },
    };
    let (response_sender, response_receiver) = match response {
        Ok(response) => response,
        Err(e) => {
            return Err(MuxError::from(e));
        },
    };
    let client_id = ClientId::new();
    let multi_receiver = MultiReceiver::new(
        new_uuid(),
        Demuxer::with_sender(client_id, response_sender),
    );
    let multi_sender = MultiSender::new(client_id, ipc_sender, response_receiver, sources);
    Ok(Channel { multi_sender, multi_sender_id: id, multi_receiver })
}

/// The ends of a new subchannel of a channel.
pub open spec fn new_sub_channel(
    sender: SubChannelSender,
    receiver: SubChannelReceiver,
    channel: Channel,
    boxes: MailboxMap,
    after: Channel,
    boxes_after: MailboxMap,
) -> bool {
    &&& is_random_uuid(sender.sub_channel_id.0)
    &&& *sender.ipc_sender == channel.multi_sender@.ipc_sender
    &&& sender.ipc_sender_uuid == channel.multi_sender@.uuid
    &&& sender.sender_id == channel.multi_sender@.sender_id
    &&& sender.multi_sender == channel.multi_sender_id
    &&& *sender.disconnector == SubChannelDisconnector {
        sub_channel_id: sender.sub_channel_id,
        ipc_sender: sender.ipc_sender,
        source: ORIGIN,
        multi_sender: channel.multi_sender_id,
    }
    &&& receiver.sub_channel_id == sender.sub_channel_id
    &&& after.multi_sender_id == channel.multi_sender_id
    &&& after.multi_sender@ == MultiSenderView {
        proxies: channel.multi_sender@.proxies.insert(sender.sub_channel_id.0, false),
        ..channel.multi_sender@
    }
    &&& after.multi_receiver@.uuid == channel.multi_receiver@.uuid
    &&& sub_channel_attached(
        channel.multi_receiver@.demuxer,
        boxes,
        sender.sub_channel_id,
        receiver.mailbox,
        after.multi_receiver@.demuxer,
        boxes_after,
    )
}

impl Channel {
    /// Constructs a new channel.
    pub fn new(
        id: MultiSenderId,
        forward: Result<Arc<ForwardSender>, IpcError>,
        response: Result<(ResponseSender, ResponseReceiver), IpcError>,
        sources: &mut SourceTable,
    ) -> (channel: Result<Channel, MuxError>)
        requires
            old(sources).wf(),
            !old(sources).exhausted(),
        ensures
            final(sources).wf(),
            (match channel {
                Ok(channel) => {
                    &&& forward is Ok
                    &&& response is Ok
                    &&& !old(sources)@.contains_key(channel.multi_sender@.sender_id)
                    &&& final(sources)@ == old(sources)@.insert(
                        channel.multi_sender@.sender_id,
                        Set::empty(),
                    )
                    &&& new_channel(
                        channel,
                        channel.multi_sender@.client_id,
                        id,
                        *forward->Ok_0,
                        response->Ok_0.0,
                        response->Ok_0.1,
                    )
                },
                Err(e) => {
                    &&& forward is Err || response is Err
                    &&& e == (match forward {
                        Err(e) => mux_error(e),
                        Ok(_) => mux_error(response->Err_0),
                    })
                    &&& final(sources)@ == old(sources)@
                },
            }),
    {
        multi_channel(id, forward, response, sources)
    }

    /// Constructs a new subchannel: its sending and its receiving end.
    pub fn sub_channel<T>(&mut self, mailboxes: &mut SubChannelMailboxes) -> (ends: (
        SubSender<T>,
        SubReceiver<T>,
    ))
        requires
            old(mailboxes).wf(),
            !old(mailboxes).exhausted(),
        ensures
            final(mailboxes).wf(),
            new_sub_channel(
                ends.0.sub_channel_sender,
                ends.1.sub_channel_receiver,
                *old(self),
                old(mailboxes)@,
                *final(self),
                final(mailboxes)@,
            ),
    {
        let sender = SubChannelSender::new(&self.multi_sender, self.multi_sender_id);
        let scid = sender.sub_channel_id();
        self.multi_sender.insert_sub_receiver_proxy(scid, SubReceiverProxy::new());
        let receiver = self.multi_receiver.attach(scid, mailboxes);
        (SubSender::from_sender(sender), SubReceiver::from_receiver(receiver))
    }
}

/// A receiving end with a random UUID and without clients has handled the first
/// message, and is what was accepted if that succeeded.
pub open spec fn connection_accepted(
    boxes: MailboxMap,
    message: MultiMessage,
    outcomes: Seq<Result<Connection, MuxError>>,
    accepted: (Result<MultiReceiver, MuxError>, Vec<Effect>),
    boxes_after: MailboxMap,
) -> bool {
    exists|before: MultiReceiverView, handled: Handled, after: MultiReceiverView|
        {
            &&& is_random_uuid(before.uuid)
            &&& before.demuxer == DemuxerView {
                clients: Map::empty(),
                sub_channels: Map::empty(),
                disconnectors: Map::empty(),
                senders: Map::empty(),
            }
            &&& #[trigger] receiver_handled(
                before,
                boxes,
                message,
                outcomes,
                handled,
                after,
                boxes_after,
            )
            &&& accepted.1 == handled.effects
            &&& match handled.result {
                Ok(()) => accepted.0 is Ok && accepted.0->Ok_0@ == after,
                Err(e) => accepted.0 == Err::<MultiReceiver, MuxError>(e),
            }
        }
}

/// Accepts the connection of one client.
pub struct OneShotMultiServer {}

impl OneShotMultiServer {
    /// The receiving end of the channel over which a client has connected,
    /// given the first message, which is handled.
    pub fn accept(
        message: MultiMessage,
        outcomes: VecDeque<Result<Connection, MuxError>>,
        mailboxes: &mut SubChannelMailboxes,
    ) -> (accepted: (Result<MultiReceiver, MuxError>, Vec<Effect>))
        requires
            old(mailboxes).wf(),
            outcomes_of(outcomes@, to_connect(Set::empty(), named_in(message))),
        ensures
            final(mailboxes).wf(),
            final(mailboxes).exhausted() == old(mailboxes).exhausted(),
            connection_accepted(
                old(mailboxes)@,
                message,
                outcomes@,
                accepted,
                final(mailboxes)@,
            ),
    {
        let mut receiver = MultiReceiver::new(new_uuid(), Demuxer::empty());
        let ghost before = receiver@;
        assert(before.demuxer.senders.dom() =~= Set::empty());
        let handled: Handled = receiver.handle_initial_message(message, outcomes, mailboxes);
        let ghost h = handled;
        let ghost after = receiver@;
        let accepted: Result<MultiReceiver, MuxError> = match handled.result {
            Ok(()) => Ok(receiver),
            Err(e) => Err(e),
        };
        assert(receiver_handled(
            before,
            old(mailboxes)@,
            message,
            outcomes@,
            h,
            after,
            mailboxes@,
        ));
        (accepted, handled.effects)
    }

    /// Accepts a connection as [`OneShotMultiServer::accept`] does, or returns
    /// `None` if the outcomes are not those of connecting the IPC senders in
    /// the first message.
    pub fn checked_accept(
        message: MultiMessage,
        outcomes: VecDeque<Result<Connection, MuxError>>,
        mailboxes: &mut SubChannelMailboxes,
    ) -> (accepted: Option<(Result<MultiReceiver, MuxError>, Vec<Effect>)>)
        requires
            old(mailboxes).wf(),
        ensures
            final(mailboxes).wf(),
            final(mailboxes).exhausted() == old(mailboxes).exhausted(),
            (match accepted {
                Some(accepted) => {
                    &&& outcomes_of(outcomes@, to_connect(Set::empty(), named_in(message)))
                    &&& connection_accepted(
                        old(mailboxes)@,
                        message,
                        outcomes@,
                        accepted,
                        final(mailboxes)@,
                    )
                },
                None => {
                    &&& !outcomes_of(outcomes@, to_connect(Set::empty(), named_in(message)))
                    &&& final(mailboxes)@ == old(mailboxes)@
                },
            }),
    {
        let demuxer = Demuxer::empty();
        assert(demuxer@.senders.dom() =~= Set::empty());
        if demuxer.can_handle(&message, &outcomes) {
            Some(OneShotMultiServer::accept(message, outcomes, mailboxes))
        } else {
            None
        }
    }
}

/// Establishes a subchannel between processes, together with a generated name
/// that the other process connects by.
pub struct SubOneShotServer {
    name: String,
}

impl View for SubOneShotServer {
    type V = Seq<char>;

    closed spec fn view(&self) -> Seq<char> {
        self.name@
    }
}

impl SubOneShotServer {
    /// A server of the given name, which is returned for the other process.
    pub fn new(name: String) -> (server: (SubOneShotServer, String))
        ensures
            server.0@ == name@,
            server.1@ == name@,
    {
        let copy = name.clone();
        (SubOneShotServer { name }, copy)
    }

    /// The subchannel to receive from, if it was announced under the name of
    /// this server.
    pub fn accept(&self, sub_channel_id: SubChannelId, name: String) -> (accepted: Result<
        SubChannelId,
        MuxError,
    >)
        ensures
            (match accepted {
                Ok(id) => name@ == self@ && id == sub_channel_id,
                Err(e) => name@ != self@ && e@ == MuxErrorView::InternalError(
                    "unexpected sub channel name "@ + name@,
                ),
            }),
    {
        if name == self.name {
            Ok(sub_channel_id)
        } else {
            Err(MuxError::InternalError(join("unexpected sub channel name ", name.as_str())))
        }
    }
}

} // verus!
