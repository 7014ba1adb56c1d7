//! The reasons for failure of the operations on channels and subchannels.

use crate::mux::error::{IpcError, IpcErrorView};
use crate::mux::text::join;
use vstd::prelude::*;
use vstd::string::*;

verus! {

/// The possible reasons for failure of the operations on subchannels.
#[derive(Debug)]
pub enum MultiplexError {
    /// An error has occurred while receiving a message from the IPC channel
    /// underlying a subchannel.
    IpcError(IpcError),
    /// No more messages may be received.
    ///
    /// Returned from a send when the subchannel's receiver has disconnected,
    /// and from a receive when all the subchannel's senders have disconnected
    /// and no more messages are available to be received.
    Disconnected,
    /// An internal logic error has occurred.
    InternalError(String),
}

/// The mathematical counterpart of [`MultiplexError`].
pub enum MultiplexErrorView {
    IpcError(IpcErrorView),
    Disconnected,
    InternalError(Seq<char>),
}

impl View for MultiplexError {
    type V = MultiplexErrorView;

    open spec fn view(&self) -> MultiplexErrorView {
        match *self {
            MultiplexError::IpcError(e) => MultiplexErrorView::IpcError(e@),
            MultiplexError::Disconnected => MultiplexErrorView::Disconnected,
            MultiplexError::InternalError(reason) => MultiplexErrorView::InternalError(reason@),
        }
    }
}

/// The error of a subchannel operation that failed because of the IPC channel:
/// disconnection stays disconnection, anything else is wrapped.
pub open spec fn multiplex_error(e: IpcError) -> MultiplexError {
    match e {
        IpcError::Disconnected => MultiplexError::Disconnected,
        _ => MultiplexError::IpcError(e),
    }
}

impl From<IpcError> for MultiplexError {
    fn from(e: IpcError) -> (error: MultiplexError) {
        match e {
            IpcError::Disconnected => MultiplexError::Disconnected,
            IpcError::SerializationError(reason) => MultiplexError::IpcError(
                IpcError::SerializationError(reason),
            ),
            IpcError::Io(reason) => MultiplexError::IpcError(IpcError::Io(reason)),
        }
    }
}

impl vstd::std_specs::convert::FromSpecImpl<IpcError> for MultiplexError {
    open spec fn obeys_from_spec() -> bool {
        true
    }

    open spec fn from_spec(e: IpcError) -> MultiplexError {
        multiplex_error(e)
    }
}

impl MultiplexErrorView {
    /// The text shown to a user.
    pub open spec fn text(self) -> Seq<char> {
        match self {
            MultiplexErrorView::IpcError(e) => "IPC error: "@ + e.text(),
            MultiplexErrorView::Disconnected => "disconnected"@,
            MultiplexErrorView::InternalError(reason) => "internal logic error: "@ + reason,
        }
    }
}

impl MultiplexError {
    /// The text shown to a user.
    pub fn to_string(&self) -> (text: String)
        ensures
            text@ == self@.text(),
    {
        match self {
            MultiplexError::IpcError(e) => {
                let inner = e.to_string();
                join("IPC error: ", inner.as_str())
            },
            MultiplexError::Disconnected => String::from_str("disconnected"),
            MultiplexError::InternalError(reason) => join(
                "internal logic error: ",
                reason.as_str(),
            ),
        }
    }
}

/// The disconnection of an IPC channel is the disconnection of the subchannels
/// over it. Any other failure of it is told as a failure of the IPC channel.
pub proof fn law_disconnection_stays_disconnection(e: IpcError)
    ensures
        multiplex_error(e) is Disconnected <==> e is Disconnected,
        multiplex_error(e) !is Disconnected ==> multiplex_error(e) == MultiplexError::IpcError(e),
{
}

/// The text of an error tells its kind and its reason.
pub proof fn law_text_tells_the_reason(
    ipc: &IpcError,
    ipc_text: String,
    error: &MultiplexError,
    text: String,
)
    requires
        call_ensures(IpcError::to_string, (ipc,), ipc_text),
        call_ensures(MultiplexError::to_string, (error,), text),
    ensures
        *error matches MultiplexError::IpcError(e) ==> (e == *ipc ==> text@ == "IPC error: "@
            + ipc_text@),
        *error is Disconnected ==> text@ == "disconnected"@,
        *error matches MultiplexError::InternalError(reason) ==> text@
            == "internal logic error: "@ + reason@,
{
}

} // verus!
