//! Subsenders that travel over raw IPC channels.

use crate::mux::demux::Connection;
use crate::mux::error::MuxError;
use crate::mux::ipc_handles::OpaqueIpcSender;
use crate::mux::protocol::{MultiMessage, SubChannelId, EMPTY_SUBCHANNEL_ID};
use crate::mux::sender::{
    IpcChannelTransportParts, Outgoing, SourceTable, SubChannelDisconnector, SubChannelSender,
};
use crate::mux::sender_id::ForwardSender;
use crate::mux::uuids::{is_random_uuid, new_uuid, Uuid};
use std::marker::PhantomData;
use std::sync::Arc;
use vstd::prelude::*;

verus! {

/// A subsender on its way over a raw IPC channel.
pub struct IpcChannelSubSender<T> {
    parts: IpcChannelTransportParts,
    phantom: PhantomData<T>,
}

impl<T> View for IpcChannelSubSender<T> {
    type V = IpcChannelTransportParts;

    closed spec fn view(&self) -> IpcChannelTransportParts {
        self.parts
    }
}

/// A subsender that has arrived over a raw IPC channel.
pub struct ArrivedSubSender {
    pub sender: SubChannelSender,
    /// Tells the receiver of the subchannel of the arrival.
    pub notification: Outgoing,
    /// To be held as long as the subsender lives.
    pub keepalive: Option<OpaqueIpcSender>,
}

impl<T> IpcChannelSubSender<T> {
    pub fn new(
        sub_channel_id: SubChannelId,
        ipc_sender: Arc<ForwardSender>,
        ipc_sender_uuid: Uuid,
        keepalive: Option<OpaqueIpcSender>,
    ) -> (transport: Self)
        ensures
            transport@ == (IpcChannelTransportParts {
                sub_channel_id,
                ipc_sender,
                ipc_sender_uuid,
                keepalive,
            }),
    {
        IpcChannelSubSender {
            parts: IpcChannelTransportParts {
                sub_channel_id,
                ipc_sender,
                ipc_sender_uuid,
                keepalive,
            },
            phantom: PhantomData,
        }
    }

    /// What the other process needs.
    pub fn into_parts(self) -> (parts: IpcChannelTransportParts)
        ensures
            parts == self@,
    {
        self.parts
    }

    /// Reconstructs the subsender, once its IPC sender has been connected. It
    /// is a source of its own, of which the receiver is to be notified.
    pub fn into_sub_sender(
        self,
        connected: Result<Connection, MuxError>,
        sources: &mut SourceTable,
    ) -> (arrived: Result<ArrivedSubSender, MuxError>)
        requires
            old(sources).wf(),
            !old(sources).exhausted(),
        ensures
            final(sources).wf(),
            (match arrived {
                Ok(arrived) => {
                    let source = arrived.sender.disconnector.source;
                    &&& connected is Ok
                    &&& is_random_uuid(source)
                    &&& !old(sources)@.contains_key(arrived.sender.sender_id)
                    &&& final(sources)@ == old(sources)@.insert(
                        arrived.sender.sender_id,
                        Set::empty(),
                    )
                    &&& arrived.sender == SubChannelSender {
                        sub_channel_id: self@.sub_channel_id,
                        ipc_sender: connected->Ok_0.ipc_sender,
                        disconnector: arrived.sender.disconnector,
                        ipc_sender_uuid: connected->Ok_0.uuid,
                        sender_id: arrived.sender.sender_id,
                        multi_sender: connected->Ok_0.multi_sender,
                    }
                    &&& *arrived.sender.disconnector == SubChannelDisconnector {
                        sub_channel_id: self@.sub_channel_id,
                        ipc_sender: connected->Ok_0.ipc_sender,
                        source,
                        multi_sender: connected->Ok_0.multi_sender,
                    }
                    &&& arrived.notification == Outgoing {
                        to: connected->Ok_0.ipc_sender,
                        message: MultiMessage::Received {
                            scid: self@.sub_channel_id,
                            via: SubChannelId(EMPTY_SUBCHANNEL_ID),
                            new_source: source,
                        },
                    }
                    &&& arrived.keepalive == self@.keepalive
                },
                Err(e) => {
                    &&& connected == Err::<Connection, MuxError>(e)
                    &&& final(sources)@ == old(sources)@
                },
            }),
    {
        let connection: Connection = match connected {
            Ok(connection) => connection,
            Err(e) => {
                return Err(e);
            },
        };
        let scid = self.parts.sub_channel_id;
        let source: Uuid = new_uuid();
        let disconnector = Arc::new(
            SubChannelDisconnector::new(
                scid,
                Arc::clone(&connection.ipc_sender),
                source,
                connection.multi_sender,
            ),
        );
        let notification = Outgoing {
            to: Arc::clone(&connection.ipc_sender),
            message: MultiMessage::Received {
                scid,
                via: SubChannelId(EMPTY_SUBCHANNEL_ID),
                new_source: source,
            },
        };
        let sender = SubChannelSender::from_deserialized(
            scid,
            connection.ipc_sender,
            disconnector,
            connection.uuid,
            connection.multi_sender,
            sources,
        );
        Ok(ArrivedSubSender { sender, notification, keepalive: self.parts.keepalive })
    }
}

} // verus!
