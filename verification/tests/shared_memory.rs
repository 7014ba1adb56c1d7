use ipc_channel::ipc::IpcSharedMemory;
use ipc_channel_mux::mux::shared_memory::SharedMemory;

#[test]
fn shmem_deref() {
    let data = SharedMemory::from_bytes(b"abcdef");
    assert_eq!(data.len(), 6);
    assert_eq!(data[0], b'a');
    assert_eq!(&data[2..4], b"cd");
}

#[test]
fn shmem_deref_mut() {
    let mut data = SharedMemory::from_bytes(b"hello");
    assert_eq!(&*data, b"hello");
    let bytes = data.deref_mut();
    bytes[0] = b'H';
    bytes[4] = b'O';
    assert_eq!(&*data, b"HellO");
}

#[test]
fn edited_and_empty_regions_can_be_taken() {
    let mut data = SharedMemory::from_bytes(b"hello");
    data.deref_mut()[0] = b'j';
    let copy = data.clone();
    assert_eq!(data.take(), Some(b"jello".to_vec()));
    assert_eq!(copy.take(), Some(b"jello".to_vec()));

    let empty = SharedMemory::from_bytes(b"");
    let same = empty.clone();
    assert_eq!(empty.take(), Some(vec![]));
    assert_eq!(same.take(), Some(vec![]));
    assert_eq!(SharedMemory::from_byte(7, 0).take(), Some(vec![]));
}

#[test]
fn shmem_ipc_conversion() {
    let original = SharedMemory::from_bytes(b"roundtrip");
    let ipc: IpcSharedMemory = original.clone().into();
    let back: SharedMemory = ipc.into();
    assert_eq!(&*original, &*back);
}
