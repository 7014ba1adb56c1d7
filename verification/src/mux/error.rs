//! The reasons for failure of the operations on channels and subchannels.

use crate::mux::text::join;
use vstd::prelude::*;
use vstd::string::*;

verus! {

/// A failure of the IPC channel under a subchannel.
#[derive(Debug)]
pub enum IpcError {
    /// A message could not be encoded or decoded, for the given reason.
    SerializationError(String),
    /// The operating system reported the given error.
    Io(String),
    /// All senders of the IPC channel are gone and nothing is left to receive.
    Disconnected,
}

/// The possible reasons for failure of the operations on subchannels.
#[derive(Debug)]
pub enum MuxError {
    /// An error has occurred in the IPC channel underlying a subchannel.
    IpcError(IpcError),
    /// No more messages may be received.
    ///
    /// Returned from a send when the subchannel's receiver has disconnected,
    /// and from a receive when all the subchannel's senders have disconnected
    /// and no more messages are available to be received.
    Disconnected,
    /// An internal logic error has occurred.
    InternalError(String),
}

/// The possible reasons for failure of non-blocking receive operations.
#[derive(Debug)]
pub enum TryRecvError {
    /// An error has occurred while receiving a message.
    MuxError(MuxError),
    /// No message is currently available on the subchannel.
    Empty,
}

/// The mathematical counterpart of [`IpcError`].
pub enum IpcErrorView {
    SerializationError(Seq<char>),
    Io(Seq<char>),
    Disconnected,
}

/// The mathematical counterpart of [`MuxError`].
pub enum MuxErrorView {
    IpcError(IpcErrorView),
    Disconnected,
    InternalError(Seq<char>),
}

impl View for IpcError {
    type V = IpcErrorView;

    open spec fn view(&self) -> IpcErrorView {
        match *self {
            IpcError::SerializationError(reason) => IpcErrorView::SerializationError(reason@),
            IpcError::Io(reason) => IpcErrorView::Io(reason@),
            IpcError::Disconnected => IpcErrorView::Disconnected,
        }
    }
}

impl View for MuxError {
    type V = MuxErrorView;

    open spec fn view(&self) -> MuxErrorView {
        match *self {
            MuxError::IpcError(e) => MuxErrorView::IpcError(e@),
            MuxError::Disconnected => MuxErrorView::Disconnected,
            MuxError::InternalError(reason) => MuxErrorView::InternalError(reason@),
        }
    }
}

/// The error of a subchannel operation that failed because of the IPC channel:
/// disconnection stays disconnection, anything else is wrapped.
pub open spec fn mux_error(e: IpcError) -> MuxError {
    match e {
        IpcError::Disconnected => MuxError::Disconnected,
        _ => MuxError::IpcError(e),
    }
}

impl From<IpcError> for MuxError {
    fn from(e: IpcError) -> (error: MuxError) {
        match e {
            IpcError::Disconnected => MuxError::Disconnected,
            IpcError::SerializationError(reason) => MuxError::IpcError(
                IpcError::SerializationError(reason),
            ),
            IpcError::Io(reason) => MuxError::IpcError(IpcError::Io(reason)),
        }
    }
}

impl vstd::std_specs::convert::FromSpecImpl<IpcError> for MuxError {
    open spec fn obeys_from_spec() -> bool {
        true
    }

    open spec fn from_spec(e: IpcError) -> MuxError {
        mux_error(e)
    }
}

impl From<MuxError> for TryRecvError {
    fn from(e: MuxError) -> (error: TryRecvError) {
        TryRecvError::MuxError(e)
    }
}

impl vstd::std_specs::convert::FromSpecImpl<MuxError> for TryRecvError {
    open spec fn obeys_from_spec() -> bool {
        true
    }

    open spec fn from_spec(e: MuxError) -> TryRecvError {
        TryRecvError::MuxError(e)
    }
}

impl IpcErrorView {
    /// The text shown to a user.
    pub open spec fn text(self) -> Seq<char> {
        match self {
            IpcErrorView::SerializationError(reason) => "Error in decoding or encoding: "@ + reason
                + "."@,
            IpcErrorView::Io(reason) => "Error in IO: "@ + reason + "."@,
            IpcErrorView::Disconnected => "Ipc Disconnected."@,
        }
    }
}

impl MuxErrorView {
    /// The text shown to a user.
    pub open spec fn text(self) -> Seq<char> {
        match self {
            MuxErrorView::IpcError(e) => "IPC error: "@ + e.text(),
            MuxErrorView::Disconnected => "Disconnected"@,
            MuxErrorView::InternalError(reason) => "Internal error: "@ + reason,
        }
    }
}

impl IpcError {
    /// The text shown to a user.
    pub fn to_string(&self) -> (text: String)
        ensures
            text@ == self@.text(),
    {
        match self {
            IpcError::SerializationError(reason) => {
                let text = join("Error in decoding or encoding: ", reason.as_str());
                join(text.as_str(), ".")
            },
            IpcError::Io(reason) => {
                let text = join("Error in IO: ", reason.as_str());
                join(text.as_str(), ".")
            },
            IpcError::Disconnected => String::from_str("Ipc Disconnected."),
        }
    }
}

impl MuxError {
    /// The text shown to a user.
    pub fn to_string(&self) -> (text: String)
        ensures
            text@ == self@.text(),
    {
        match self {
            MuxError::IpcError(e) => {
                let inner = e.to_string();
                join("IPC error: ", inner.as_str())
            },
            MuxError::Disconnected => String::from_str("Disconnected"),
            MuxError::InternalError(reason) => join("Internal error: ", reason.as_str()),
        }
    }
}

impl TryRecvError {
    /// The text shown to a user.
    pub fn to_string(&self) -> (text: String)
        ensures
            text@ == (match *self {
                TryRecvError::MuxError(e) => e@.text(),
                TryRecvError::Empty => "Channel empty"@,
            }),
    {
        match self {
            TryRecvError::MuxError(e) => e.to_string(),
            TryRecvError::Empty => String::from_str("Channel empty"),
        }
    }
}

/// The text of an error tells its kind and its reason.
pub proof fn law_text_tells_the_reason(
    ipc: &IpcError,
    ipc_text: String,
    mux: &MuxError,
    mux_text: String,
    tried: &TryRecvError,
    tried_text: String,
)
    requires
        call_ensures(IpcError::to_string, (ipc,), ipc_text),
        call_ensures(MuxError::to_string, (mux,), mux_text),
        call_ensures(TryRecvError::to_string, (tried,), tried_text),
    ensures
        *ipc matches IpcError::SerializationError(reason) ==> ipc_text@
            == "Error in decoding or encoding: "@ + reason@ + "."@,
        *ipc matches IpcError::Io(reason) ==> ipc_text@ == "Error in IO: "@ + reason@ + "."@,
        *ipc is Disconnected ==> ipc_text@ == "Ipc Disconnected."@,
        *mux matches MuxError::IpcError(e) ==> (e == *ipc ==> mux_text@ == "IPC error: "@
            + ipc_text@),
        *mux is Disconnected ==> mux_text@ == "Disconnected"@,
        *mux matches MuxError::InternalError(reason) ==> mux_text@ == "Internal error: "@ + reason@,
        *tried matches TryRecvError::MuxError(e) ==> (e == *mux ==> tried_text@ == mux_text@),
        *tried is Empty ==> tried_text@ == "Channel empty"@,
{
}

} // verus!
