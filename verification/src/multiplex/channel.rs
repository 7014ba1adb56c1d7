//! Channels whose receivers can be sent, and the subchannels made from them.

use crate::multiplex::error::{MultiplexError, MultiplexErrorView};
use crate::multiplex::protocol::{ClientId, ForwardReceiver, MultiMessage};
use crate::multiplex::receiver::{
    countable, left_by_former, message_handled, Grid, MultiReceiver, MultiReceiverView, PayloadMailboxes,
    ReceptionContext, SubChannelReceiver,
};
use crate::multiplex::sender::{MultiSender, Outgoing, SubChannelSender};
use crate::mux::error::IpcError;
use crate::mux::mailbox::MailboxView;
use crate::mux::protocol::{ResponseSender, SubChannelId};
use crate::mux::sender::SourceTable;
use crate::mux::sender_id::ForwardSender;
use crate::mux::text::join;
use crate::mux::uuids::{is_random_uuid, new_uuid, Uuid};
use std::marker::PhantomData;
use std::sync::Arc;
use vstd::prelude::*;

verus! {

/// The id of the client that a channel is created with.
pub const FIRST_CLIENT: ClientId = 1;

/// The sending end of a subchannel for messages of type `T`.
pub struct SubSender<T> {
    pub sub_channel_sender: SubChannelSender,
    pub phantom: PhantomData<T>,
}

impl<T> Clone for SubSender<T> {
    fn clone(&self) -> (same: SubSender<T>)
        ensures
            same.sub_channel_sender == self.sub_channel_sender,
    {
        SubSender { sub_channel_sender: self.sub_channel_sender.clone(), phantom: PhantomData }
    }
}

impl<T> SubSender<T> {
    /// The sending end of a new subchannel over the channel to a one-shot
    /// server, and the message that announces the subchannel there.
    pub fn connect(channel: &MultiSender, name: String) -> (connected: (Self, Outgoing))
        ensures
            is_random_uuid(connected.0.sub_channel_sender.sub_channel_id.0),
            connected.0.sub_channel_sender.ipc_sender == channel.ipc_sender,
            connected.0.sub_channel_sender.ipc_sender_uuid == channel.uuid,
            connected.0.sub_channel_sender.sender_id == channel.sender_id,
            connected.1 == (Outgoing {
                to: channel.ipc_sender,
                message: MultiMessage::SubChannelId(
                    connected.0.sub_channel_sender.sub_channel_id,
                    name,
                ),
            }),
    {
        let sender = SubChannelSender::new(channel);
        let announcement = channel.notify_sub_channel(sender.sub_channel_id(), name);
        (SubSender { sub_channel_sender: sender, phantom: PhantomData }, announcement)
    }
}

/// The receiving end of a subchannel for messages of type `T`.
pub struct SubReceiver<T> {
    pub sub_channel_receiver: SubChannelReceiver,
    pub phantom: PhantomData<T>,
}

/// Both ends of an IPC channel, from which subchannels are made.
pub struct Channel {
    pub multi_sender: MultiSender,
    pub multi_receiver: Uuid,
    pub grid: Grid,
}

/// The ends of a new channel: its only client is the first one, its only
/// receiving end is its own, and nothing else is known.
pub open spec fn new_channel(
    channel: Channel,
    ipc_sender: ForwardSender,
    ipc_receiver: ForwardReceiver,
    response_sender: ResponseSender,
) -> bool {
    &&& channel.multi_sender.client_id == FIRST_CLIENT
    &&& *channel.multi_sender.ipc_sender == ipc_sender
    &&& is_random_uuid(channel.multi_sender.uuid)
    &&& is_random_uuid(channel.multi_receiver)
    &&& channel.grid@ == map![channel.multi_receiver => MultiReceiverView {
        clients: map![FIRST_CLIENT => response_sender],
        next_client_id: (FIRST_CLIENT + 1) as ClientId,
        ..MultiReceiverView::fresh(ipc_receiver)
    }]
}

/// The ends of a multiplexing channel, given what came of creating its forward
/// and its response channel.
///
/// A multiplexing channel represents a fixed collection of IPC resources:
/// subchannels consume no further ones.
pub fn multi_channel(
    forward: Result<(Arc<ForwardSender>, ForwardReceiver), IpcError>,
    response: Result<ResponseSender, IpcError>,
    sources: &mut SourceTable,
) -> (channel: Result<Channel, MultiplexError>)
    requires
        old(sources).wf(),
        !old(sources).exhausted(),
    ensures
        final(sources).wf(),
        (match channel {
            Ok(channel) => {
                &&& forward is Ok
                &&& response is Ok
                &&& !old(sources)@.contains_key(channel.multi_sender.sender_id)
                &&& final(sources)@ == old(sources)@.insert(
                    channel.multi_sender.sender_id,
                    Set::empty(),
                )
                &&& new_channel(channel, *forward->Ok_0.0, forward->Ok_0.1, response->Ok_0)
            },
            Err(e) => {
                &&& forward is Err || response is Err
                &&& e == (match forward {
                    Err(e) => MultiplexError::IpcError(e),
                    Ok(_) => MultiplexError::IpcError(response->Err_0),
                })
                &&& final(sources)@ == old(sources)@
            },
        }),
{
    let (ipc_sender, ipc_receiver) = match forward {
        Ok(forward) => forward,
        Err(e) => {
            return Err(MultiplexError::from(e));
        },
    };
    let response_sender: ResponseSender = match response {
        Ok(response_sender) => response_sender,
        Err(e) => {
            return Err(MultiplexError::from(e));
        },
    };
    let multi_receiver: Uuid = new_uuid();
    let grid = Grid::new(
        multi_receiver,
        MultiReceiver::with_client(ipc_receiver, FIRST_CLIENT, response_sender),
    );
    let multi_sender = MultiSender::new(FIRST_CLIENT, ipc_sender, sources);
    Ok(Channel { multi_sender, multi_receiver, grid })
}

impl Channel {
    /// Constructs a new channel.
    pub fn new(
        forward: Result<(Arc<ForwardSender>, ForwardReceiver), IpcError>,
        response: Result<ResponseSender, IpcError>,
        sources: &mut SourceTable,
    ) -> (channel: Result<Channel, MultiplexError>)
        requires
            old(sources).wf(),
            !old(sources).exhausted(),
        ensures
            final(sources).wf(),
            (match channel {
                Ok(channel) => {
                    &&& forward is Ok
                    &&& response is Ok
                    &&& !old(sources)@.contains_key(channel.multi_sender.sender_id)
                    &&& final(sources)@ == old(sources)@.insert(
                        channel.multi_sender.sender_id,
                        Set::empty(),
                    )
                    &&& new_channel(channel, *forward->Ok_0.0, forward->Ok_0.1, response->Ok_0)
                },
                Err(e) => {
                    &&& forward is Err || response is Err
                    &&& e == (match forward {
                        Err(e) => MultiplexError::IpcError(e),
                        Ok(_) => MultiplexError::IpcError(response->Err_0),
                    })
                    &&& final(sources)@ == old(sources)@
                },
            }),
    {
        multi_channel(forward, response, sources)
    }

    /// Constructs a new subchannel: its sending and its receiving end.
    pub fn sub_channel<T>(&mut self, mailboxes: &mut PayloadMailboxes) -> (ends: (
        SubSender<T>,
        SubReceiver<T>,
    ))
        requires
            old(self).grid@.contains_key(old(self).multi_receiver),
            old(mailboxes).wf(),
            !old(mailboxes).exhausted(),
        ensures
            final(mailboxes).wf(),
            final(self).multi_sender == old(self).multi_sender,
            final(self).multi_receiver == old(self).multi_receiver,
            ({
                let sender = ends.0.sub_channel_sender;
                let receiver = ends.1.sub_channel_receiver;
                let state = old(self).grid@[old(self).multi_receiver];
                &&& is_random_uuid(sender.sub_channel_id.0)
                &&& sender.ipc_sender == old(self).multi_sender.ipc_sender
                &&& sender.ipc_sender_uuid == old(self).multi_sender.uuid
                &&& sender.sender_id == old(self).multi_sender.sender_id
                &&& receiver.multi_receiver == old(self).multi_receiver
                &&& receiver.ipc_receiver_uuid == old(self).multi_receiver
                &&& receiver.sub_channel_id == sender.sub_channel_id
                &&& !old(mailboxes)@.contains_key(receiver.mailbox)
                &&& final(mailboxes)@ == left_by_former(
                    state.sub_channels,
                    sender.sub_channel_id,
                    old(mailboxes)@.insert(receiver.mailbox, MailboxView::opened()),
                )
                &&& final(self).grid@ == old(self).grid@.insert(
                    old(self).multi_receiver,
                    MultiReceiverView {
                        sub_channels: state.sub_channels.insert(
                            sender.sub_channel_id.0,
                            receiver.mailbox,
                        ),
                        ..state
                    },
                )
            }),
    {
        let sub_channel_sender = SubChannelSender::new(&self.multi_sender);
        let sub_channel_receiver = self.grid.attach(
            self.multi_receiver,
            sub_channel_sender.sub_channel_id(),
            mailboxes,
        );
        (
            SubSender { sub_channel_sender, phantom: PhantomData },
            SubReceiver { sub_channel_receiver, phantom: PhantomData },
        )
    }
}

/// A multiplexing server associated with a given name. It accepts the
/// connection of one client.
pub struct OneShotMultiServer {}

impl OneShotMultiServer {
    /// A new receiving end for the channel over which a client connects. The
    /// first message there is still to be handled.
    pub fn begin_accept(ipc_receiver: ForwardReceiver) -> (begun: (Uuid, Grid))
        ensures
            is_random_uuid(begun.0),
            begun.1@ == map![begun.0 => MultiReceiverView::fresh(ipc_receiver)],
    {
        let uuid: Uuid = new_uuid();
        (uuid, Grid::new(uuid, MultiReceiver::new(ipc_receiver)))
    }

    /// The receiving end of the channel over which a client has connected,
    /// given the first message, which is handled. If the message is to be
    /// answered, the answer has been sent with the given outcome.
    pub fn accept(
        receiver: Uuid,
        grid: Grid,
        message: MultiMessage,
        answered: Result<(), IpcError>,
        context: &mut ReceptionContext,
        mailboxes: &mut PayloadMailboxes,
    ) -> (accepted: Result<Grid, MultiplexError>)
        requires
            grid@.contains_key(receiver),
            countable(grid@[receiver], message),
            old(mailboxes).wf(),
        ensures
            final(mailboxes).wf(),
            final(mailboxes).exhausted() == old(mailboxes).exhausted(),
            exists|result: Result<(), MultiplexError>, after: Map<Uuid, MultiReceiverView>|
                {
                    &&& #[trigger] message_handled(
                        grid@,
                        old(mailboxes)@,
                        *old(context),
                        receiver,
                        message,
                        answered,
                        result,
                        after,
                        final(mailboxes)@,
                        *final(context),
                    )
                    &&& match result {
                        Ok(()) => accepted is Ok && accepted->Ok_0@ == after,
                        Err(e) => accepted == Err::<Grid, MultiplexError>(e),
                    }
                },
    {
        let mut grid = grid;
        let ghost before = grid@;
        let result = grid.handle(receiver, message, answered, context, mailboxes);
        assert(message_handled(
            before,
            old(mailboxes)@,
            *old(context),
            receiver,
            message,
            answered,
            result,
            grid@,
            mailboxes@,
            *context,
        ));
        match result {
            Ok(()) => Ok(grid),
            Err(e) => Err(e),
        }
    }
}

/// Establishes a subchannel between processes, together with a generated name
/// that the other process connects by.
pub struct SubOneShotServer {
    name: String,
}

impl View for SubOneShotServer {
    type V = Seq<char>;

    closed spec fn view(&self) -> Seq<char> {
        self.name@
    }
}

impl SubOneShotServer {
    /// A server of the given name, which is returned for the other process.
    pub fn new(name: String) -> (server: (SubOneShotServer, String))
        ensures
            server.0@ == name@,
            server.1@ == name@,
    {
        let copy = name.clone();
        (SubOneShotServer { name }, copy)
    }

    /// The subchannel to receive from, if it was announced under the name of
    /// this server.
    pub fn accept(&self, sub_channel_id: SubChannelId, name: String) -> (accepted: Result<
        SubChannelId,
        MultiplexError,
    >)
        ensures
            (match accepted {
                Ok(id) => name@ == self@ && id == sub_channel_id,
                Err(e) => name@ != self@ && e@ == MultiplexErrorView::InternalError(
                    "unexpected sub channel name "@ + name@,
                ),
            }),
    {
        if name == self.name {
            Ok(sub_channel_id)
        } else {
            Err(
                MultiplexError::InternalError(join("unexpected sub channel name ", name.as_str())),
            )
        }
    }
}

} // verus!
