//! Shared memory for multiplexed subchannels.

use crate::mux::captures::{available, unavailable_text, unclaimed, Arrived, Captured};
use ipc_channel::ipc::IpcSharedMemory;
use vstd::prelude::*;

verus! {

/// `ipc_channel::ipc::IpcSharedMemory`, a region of memory that processes
/// share.
#[verifier::external_type_specification]
#[verifier::external_body]
pub struct ExIpcSharedMemory(IpcSharedMemory);

/// The name of what a region holds.
pub uninterp spec fn region_bytes(region: IpcSharedMemory) -> Seq<u8>;

/// `IpcSharedMemory::from_bytes`: a region that holds the given bytes.
#[verifier::external_body]
fn region_from_bytes(bytes: &[u8]) -> (region: IpcSharedMemory)
    ensures
        region_bytes(region) == bytes@,
{
    IpcSharedMemory::from_bytes(bytes)
}

/// `IpcSharedMemory::from_byte`: a region of the given length, filled with the
/// given byte. It panics on a length that no slice can have.
#[verifier::external_body]
fn region_from_byte(byte: u8, length: usize) -> (region: IpcSharedMemory)
    requires
        length <= isize::MAX,
    ensures
        region_bytes(region) == Seq::new(length as nat, |i: int| byte),
{
    IpcSharedMemory::from_byte(byte, length)
}

/// `IpcSharedMemory::deref`: what the region holds.
#[verifier::external_body]
fn region_deref(region: &IpcSharedMemory) -> (bytes: &[u8])
    ensures
        bytes@ == region_bytes(*region),
{
    region
}

/// `IpcSharedMemory::clone`: the same region again.
#[verifier::external_body]
fn region_clone(region: &IpcSharedMemory) -> (same: IpcSharedMemory)
    ensures
        region_bytes(same) == region_bytes(*region),
{
    region.clone()
}

/// `IpcSharedMemory::take`: what the region holds, if it can be taken. An empty
/// region always can. Whether another one can depends on the platform and on who
/// else holds the region, and is not said.
#[verifier::external_body]
fn region_take(region: IpcSharedMemory) -> (bytes: Option<Vec<u8>>)
    ensures
        bytes is Some ==> bytes->0@ == region_bytes(region),
        region_bytes(region).len() == 0 ==> bytes is Some,
{
    region.take()
}

/// Where the bytes of a [`SharedMemory`] are.
#[derive(Debug)]
enum Contents {
    /// In a region of shared memory.
    Region(IpcSharedMemory),
    /// In a copy that has been changed since.
    Edited(Vec<u8>),
}

/// A shared memory region for use with multiplexed subchannels.
#[derive(Debug)]
pub struct SharedMemory {
    contents: Contents,
}

impl View for SharedMemory {
    type V = Seq<u8>;

    closed spec fn view(&self) -> Seq<u8> {
        match self.contents {
            Contents::Region(region) => region_bytes(region),
            Contents::Edited(bytes) => bytes@,
        }
    }
}

impl SharedMemory {
    /// The bytes have been handed out to be changed, and are no longer in a
    /// region that others may hold.
    pub closed spec fn is_edited(&self) -> bool {
        self.contents is Edited
    }

    /// Creates a shared memory region initialized with the provided bytes.
    pub fn from_bytes(bytes: &[u8]) -> (memory: SharedMemory)
        ensures
            memory@ == bytes@,
    {
        SharedMemory { contents: Contents::Region(region_from_bytes(bytes)) }
    }

    /// Creates a shared memory region filled with a single byte value.
    pub fn from_byte(byte: u8, length: usize) -> (memory: SharedMemory)
        requires
            length <= isize::MAX,
        ensures
            memory@ == Seq::new(length as nat, |i: int| byte),
    {
        SharedMemory { contents: Contents::Region(region_from_byte(byte, length)) }
    }

    /// The bytes, to be changed by their only holder.
    pub fn deref_mut(&mut self) -> (bytes: &mut [u8])
        ensures
            bytes@ == old(self)@,
            final(self)@ == final(bytes)@,
            final(self).is_edited(),
    {
        let copy: Vec<u8> = copy_of(&**self);
        self.contents = Contents::Edited(copy);
        match &mut self.contents {
            Contents::Edited(bytes) => bytes.as_mut_slice(),
            Contents::Region(_) => {
                assert(false);
                &mut []
            },
        }
    }

    /// Takes the bytes out, if they can be taken from the region. Bytes that
    /// have been handed out to be changed always can, and so can none at all.
    pub fn take(self) -> (bytes: Option<Vec<u8>>)
        ensures
            bytes is Some ==> bytes->0@ == self@,
            self.is_edited() ==> bytes is Some,
            self@.len() == 0 ==> bytes is Some,
    {
        match self.contents {
            Contents::Region(region) => region_take(region),
            Contents::Edited(bytes) => Some(bytes),
        }
    }
}

/// The bytes of a slice in a vector of their own.
fn copy_of(bytes: &[u8]) -> (copy: Vec<u8>)
    ensures
        copy@ == bytes@,
{
    let mut copy: Vec<u8> = Vec::new();
    copy.extend_from_slice(bytes);
    copy
}

impl std::ops::Deref for SharedMemory {
    type Target = [u8];

    fn deref(&self) -> (bytes: &[u8])
        ensures
            bytes@ == self@,
    {
        match &self.contents {
            Contents::Region(region) => region_deref(region),
            Contents::Edited(bytes) => bytes.as_slice(),
        }
    }
}

impl Clone for SharedMemory {
    fn clone(&self) -> (same: SharedMemory)
        ensures
            same@ == self@,
            same.is_edited() == self.is_edited(),
    {
        match &self.contents {
            Contents::Region(region) => SharedMemory {
                contents: Contents::Region(region_clone(region)),
            },
            Contents::Edited(bytes) => SharedMemory {
                contents: Contents::Edited(copy_of(bytes.as_slice())),
            },
        }
    }
}

impl PartialEq for SharedMemory {
    fn eq(&self, other: &SharedMemory) -> (equal: bool) {
        let mine: &[u8] = &**self;
        let theirs: &[u8] = &**other;
        if mine.len() != theirs.len() {
            return false;
        }
        let mut i: usize = 0;
        while i < mine.len()
            invariant
                i <= mine.len(),
                mine.len() == theirs.len(),
                mine@ == self@,
                theirs@ == other@,
                mine@.take(i as int) == theirs@.take(i as int),
            decreases mine.len() - i,
        {
            if mine[i] != theirs[i] {
                assert(self@[i as int] != other@[i as int]);
                return false;
            }
            proof {
                assert(mine@.take(i + 1) =~= mine@.take(i as int).push(mine@[i as int]));
                assert(theirs@.take(i + 1) =~= theirs@.take(i as int).push(theirs@[i as int]));
            }
            i += 1;
        }
        proof {
            assert(mine@.take(mine@.len() as int) =~= mine@);
            assert(theirs@.take(theirs@.len() as int) =~= theirs@);
        }
        true
    }
}

impl vstd::std_specs::cmp::PartialEqSpecImpl for SharedMemory {
    open spec fn obeys_eq_spec() -> bool {
        true
    }

    open spec fn eq_spec(&self, other: &SharedMemory) -> bool {
        self@ == other@
    }
}

impl From<IpcSharedMemory> for SharedMemory {
    fn from(region: IpcSharedMemory) -> (memory: SharedMemory)
        ensures
            memory@ == region_bytes(region),
    {
        SharedMemory { contents: Contents::Region(region) }
    }
}

impl vstd::std_specs::convert::FromSpecImpl<IpcSharedMemory> for SharedMemory {
    open spec fn obeys_from_spec() -> bool {
        false
    }

    open spec fn from_spec(region: IpcSharedMemory) -> SharedMemory {
        arbitrary()
    }
}

impl From<SharedMemory> for IpcSharedMemory {
    fn from(memory: SharedMemory) -> (region: IpcSharedMemory)
        ensures
            region_bytes(region) == memory@,
    {
        match memory.contents {
            Contents::Region(region) => region,
            Contents::Edited(bytes) => region_from_bytes(bytes.as_slice()),
        }
    }
}

impl vstd::std_specs::convert::FromSpecImpl<SharedMemory> for IpcSharedMemory {
    open spec fn obeys_from_spec() -> bool {
        false
    }

    open spec fn from_spec(memory: SharedMemory) -> IpcSharedMemory {
        arbitrary()
    }
}

/// The regions captured while a message is encoded.
pub type CapturedRegions = Captured<IpcSharedMemory>;

/// The regions that arrived with a message.
pub type ArrivedRegions = Arrived<IpcSharedMemory>;

impl SharedMemory {
    /// Puts the region beside the message that is being encoded. The message
    /// itself gets the returned index.
    pub fn serialize(&self, regions: &mut CapturedRegions) -> (index: usize)
        ensures
            index == old(regions)@.len(),
            final(regions)@.len() == index + 1,
            final(regions)@.drop_last() == old(regions)@,
            region_bytes(final(regions)@.last()) == self@,
    {
        let region: IpcSharedMemory = self.clone().into();
        let index: usize = regions.capture(region);
        assert(regions@.drop_last() =~= old(regions)@);
        index
    }

    /// Takes the region that an index in a message stands for.
    pub fn deserialize(index: usize, regions: &mut ArrivedRegions) -> (memory: Result<
        SharedMemory,
        String,
    >)
        ensures
            (match memory {
                Ok(memory) => {
                    &&& available(old(regions)@, index as int)
                    &&& memory@ == region_bytes(old(regions)@[index as int]->0)
                    &&& final(regions)@ == old(regions)@.update(index as int, None)
                },
                Err(reason) => {
                    &&& !available(old(regions)@, index as int)
                    &&& reason@ == unavailable_text(
                        "shared memory region"@,
                        index as nat,
                        old(regions)@.len(),
                        "regions"@,
                    )
                    &&& final(regions)@ == old(regions)@
                },
            }),
    {
        match regions.claim(index, "shared memory region", "regions") {
            Ok(region) => Ok(SharedMemory { contents: Contents::Region(region) }),
            Err(reason) => Err(reason),
        }
    }
}

/// Forgets the regions captured for an earlier message.
pub fn clear_shmem_serialization_context(regions: &mut CapturedRegions)
    ensures
        final(regions)@ == Seq::<IpcSharedMemory>::empty(),
{
    regions.clear();
}

/// Takes the regions to be sent along with a message.
pub fn take_shmems_for_send(regions: &mut CapturedRegions) -> (shmems: Vec<IpcSharedMemory>)
    ensures
        shmems@ == old(regions)@,
        final(regions)@ == Seq::<IpcSharedMemory>::empty(),
{
    regions.take()
}

/// Sets the regions that arrived with a message.
pub fn set_shmems_for_recv(regions: &mut ArrivedRegions, shmems: Vec<IpcSharedMemory>)
    ensures
        final(regions)@ == unclaimed(shmems@),
{
    regions.set(shmems);
}

/// Forgets the regions that arrived with an earlier message.
pub fn clear_shmem_deserialization_context(regions: &mut ArrivedRegions)
    ensures
        final(regions)@ == Seq::<Option<IpcSharedMemory>>::empty(),
{
    regions.clear();
}

} // verus!
