use ipc_channel_mux::multiplex::counted::error::MultiplexError as CountedError;
use ipc_channel_mux::multiplex::error::MultiplexError;
use ipc_channel_mux::mux::error::{IpcError, MuxError, TryRecvError};
use ipc_channel_mux::mux::receiver::TryReceiveError;
use ipc_channel_mux::mux::subchannel_router::RouterError;

#[test]
fn texts_of_ipc_errors() {
    assert_eq!(
        IpcError::SerializationError("bad".to_string()).to_string(),
        "Error in decoding or encoding: bad."
    );
    assert_eq!(IpcError::Io("broken".to_string()).to_string(), "Error in IO: broken.");
    assert_eq!(IpcError::Disconnected.to_string(), "Ipc Disconnected.");
}

#[test]
fn texts_of_mux_errors() {
    assert_eq!(
        MuxError::IpcError(IpcError::Io("broken".to_string())).to_string(),
        "IPC error: Error in IO: broken."
    );
    assert_eq!(MuxError::Disconnected.to_string(), "Disconnected");
    assert_eq!(MuxError::InternalError("odd".to_string()).to_string(), "Internal error: odd");
    assert_eq!(TryRecvError::MuxError(MuxError::Disconnected).to_string(), "Disconnected");
    assert_eq!(TryRecvError::Empty.to_string(), "Channel empty");
    assert_eq!(
        TryReceiveError::MuxError(MuxError::Disconnected).to_string(),
        "TryRecvError::MuxError(Disconnected)"
    );
    assert_eq!(TryReceiveError::Empty.to_string(), "TryRecvError::Empty");
    assert_eq!(TryReceiveError::Handled.to_string(), "TryRecvError::Handled");
    assert_eq!(RouterError::ShuttingDown.to_string(), "Router shutting down");
}

#[test]
fn texts_of_multiplex_errors() {
    assert_eq!(
        MultiplexError::IpcError(IpcError::Disconnected).to_string(),
        "IPC error: Ipc Disconnected."
    );
    assert_eq!(
        MultiplexError::MpmcSendError.to_string(),
        "std::sync::mpmc::SenderError: receiver may have hung up or been dropped"
    );
    assert_eq!(
        MultiplexError::MpmcRecvError.to_string(),
        "std::sync::mpmc::RecvError: sender may have hung up or been dropped"
    );
    assert_eq!(MultiplexError::Disconnected.to_string(), "disconnected");
    assert_eq!(MultiplexError::PoisonError.to_string(), "poisoned mutex");
    assert_eq!(
        MultiplexError::InternalError("odd".to_string()).to_string(),
        "internal logic error: odd"
    );
    assert_eq!(
        CountedError::IpcError(IpcError::Disconnected).to_string(),
        "IPC error: Ipc Disconnected."
    );
    assert_eq!(CountedError::Disconnected.to_string(), "disconnected");
    assert_eq!(
        CountedError::InternalError("odd".to_string()).to_string(),
        "internal logic error: odd"
    );
}

#[test]
fn disconnected_ipc_channels_disconnect() {
    assert!(matches!(MuxError::from(IpcError::Disconnected), MuxError::Disconnected));
    assert!(matches!(
        MuxError::from(IpcError::Io("x".to_string())),
        MuxError::IpcError(IpcError::Io(_))
    ));
    assert!(matches!(
        TryRecvError::from(MuxError::Disconnected),
        TryRecvError::MuxError(MuxError::Disconnected)
    ));
    assert!(matches!(CountedError::from(IpcError::Disconnected), CountedError::Disconnected));
    assert!(matches!(
        MultiplexError::from(IpcError::Disconnected),
        MultiplexError::IpcError(IpcError::Disconnected)
    ));
}
