use ipc_channel_mux::subchannel_lifecycle::{Error, IpcSenderId, Source, Target};

#[test]
fn test_add_subchannel() {
    let mut src = Source::new();
    let mut tgt: Target<u8> = Target::new();

    let scid = 1;
    let sender_id = IpcSenderId(17);
    assert!(src.add_subchannel(scid, sender_id).is_ok());
    assert!(matches!(
        src.add_subchannel(scid, IpcSenderId(18)),
        Err(Error::SubChannelAlreadyExists)
    ));
    let (from, via) = src.prepare_to_send(scid).unwrap();
    assert_eq!(via, sender_id);
    assert!(matches!(src.prepare_to_send(2), Err(Error::SubChannelNotFound)));

    // The effect on the target.
    assert!(tgt.add_subchannel(scid, 23).is_ok());
    assert!(matches!(tgt.add_subchannel(scid, 24), Err(Error::SubChannelAlreadyExists)));
    assert!(!tgt.is_connected(scid).unwrap());
    assert!(tgt.has_room(scid));
    tgt.send(scid, from, via, 0).unwrap();
    assert!(tgt.is_connected(scid).unwrap());
}

#[test]
fn received_sender_keeps_subchannel_connected() {
    let src = Source::new();
    let mut receiving = Source::new();
    let mut tgt: Target<u8> = Target::new();
    let via = IpcSenderId(17);
    receiving.add_subchannel(1, via).unwrap();
    let (at, _) = receiving.prepare_to_send(1).unwrap();
    let mut sending = src;
    sending.add_subchannel(1, via).unwrap();
    let (from, _) = sending.prepare_to_send(1).unwrap();

    tgt.add_subchannel(1, 23).unwrap();
    tgt.send(1, from, via, 0).unwrap();
    assert!(tgt.has_room(1));
    tgt.receive(1, from, via, at).unwrap();
    assert!(tgt.is_connected(1).unwrap());

    assert!(matches!(tgt.is_connected(2), Err(Error::SubChannelNotFound)));
    assert!(matches!(tgt.send(2, from, via, 0), Err(Error::SubChannelNotFound)));
    assert!(matches!(tgt.receive(2, from, via, at), Err(Error::SubChannelNotFound)));
}
