//! The reasons for failure of the operations on channels and subchannels.

use crate::mux::error::{IpcError, IpcErrorView};
use crate::mux::text::join;
use vstd::prelude::*;
use vstd::string::*;

verus! {

/// The possible reasons for failure of the operations on subchannels.
#[derive(Debug)]
pub enum MultiplexError {
    /// An error has occurred in the IPC channel underlying a subchannel.
    IpcError(IpcError),
    /// Nobody receives from a mailbox any more.
    MpmcSendError,
    /// Nobody sends to a mailbox any more.
    MpmcRecvError,
    /// No more messages may be received.
    Disconnected,
    /// Somebody failed while holding a lock.
    PoisonError,
    /// An internal logic error has occurred.
    InternalError(String),
}

/// The mathematical counterpart of [`MultiplexError`].
pub enum MultiplexErrorView {
    IpcError(IpcErrorView),
    MpmcSendError,
    MpmcRecvError,
    Disconnected,
    PoisonError,
    InternalError(Seq<char>),
}

impl View for MultiplexError {
    type V = MultiplexErrorView;

    open spec fn view(&self) -> MultiplexErrorView {
        match *self {
            MultiplexError::IpcError(e) => MultiplexErrorView::IpcError(e@),
            MultiplexError::MpmcSendError => MultiplexErrorView::MpmcSendError,
            MultiplexError::MpmcRecvError => MultiplexErrorView::MpmcRecvError,
            MultiplexError::Disconnected => MultiplexErrorView::Disconnected,
            MultiplexError::PoisonError => MultiplexErrorView::PoisonError,
            MultiplexError::InternalError(reason) => MultiplexErrorView::InternalError(reason@),
        }
    }
}

impl From<IpcError> for MultiplexError {
    fn from(e: IpcError) -> (error: MultiplexError) {
        MultiplexError::IpcError(e)
    }
}

impl vstd::std_specs::convert::FromSpecImpl<IpcError> for MultiplexError {
    open spec fn obeys_from_spec() -> bool {
        true
    }

    open spec fn from_spec(e: IpcError) -> MultiplexError {
        MultiplexError::IpcError(e)
    }
}

impl MultiplexErrorView {
    /// The text shown to a user.
    pub open spec fn text(self) -> Seq<char> {
        match self {
            MultiplexErrorView::IpcError(e) => "IPC error: "@ + e.text(),
            MultiplexErrorView::MpmcSendError =>
                "std::sync::mpmc::SenderError: receiver may have hung up or been dropped"@,
            MultiplexErrorView::MpmcRecvError =>
                "std::sync::mpmc::RecvError: sender may have hung up or been dropped"@,
            MultiplexErrorView::Disconnected => "disconnected"@,
            MultiplexErrorView::PoisonError => "poisoned mutex"@,
            MultiplexErrorView::InternalError(reason) => "internal logic error: "@ + reason,
        }
    }
}

impl MultiplexError {
    /// The text shown to a user.
    pub fn to_string(&self) -> (text: String)
        ensures
            text@ == self@.text(),
    {
        match self {
            MultiplexError::IpcError(e) => {
                let inner = e.to_string();
                join("IPC error: ", inner.as_str())
            },
            MultiplexError::MpmcSendError => String::from_str(
                "std::sync::mpmc::SenderError: receiver may have hung up or been dropped",
            ),
            MultiplexError::MpmcRecvError => String::from_str(
                "std::sync::mpmc::RecvError: sender may have hung up or been dropped",
            ),
            MultiplexError::Disconnected => String::from_str("disconnected"),
            MultiplexError::PoisonError => String::from_str("poisoned mutex"),
            MultiplexError::InternalError(reason) => join(
                "internal logic error: ",
                reason.as_str(),
            ),
        }
    }
}

/// The text of an error tells its kind and its reason.
pub proof fn law_text_tells_the_reason(
    ipc: &IpcError,
    ipc_text: String,
    error: &MultiplexError,
    text: String,
)
    requires
        call_ensures(IpcError::to_string, (ipc,), ipc_text),
        call_ensures(MultiplexError::to_string, (error,), text),
    ensures
        *error matches MultiplexError::IpcError(e) ==> (e == *ipc ==> text@ == "IPC error: "@
            + ipc_text@),
        *error is MpmcSendError ==> text@
            == "std::sync::mpmc::SenderError: receiver may have hung up or been dropped"@,
        *error is MpmcRecvError ==> text@
            == "std::sync::mpmc::RecvError: sender may have hung up or been dropped"@,
        *error is Disconnected ==> text@ == "disconnected"@,
        *error is PoisonError ==> text@ == "poisoned mutex"@,
        *error matches MultiplexError::InternalError(reason) ==> text@
            == "internal logic error: "@ + reason@,
{
}

} // verus!
