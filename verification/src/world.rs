//! Layout of the flash-backed world store: a map of fill markers, one bit
//! for each block update, then the block updates themselves.

pub mod block;

use crate::world::block::{BlockUpdate, BlockUpdatePointer, BLOCK_UPDATE_SIZE};
use vstd::prelude::*;

verus! {

/// Number of bytes that the store is read in at once while a free place is
/// looked for.
pub const CHUNKED_READ_ALIGNMENT: usize = 128;

/// Number of bytes that one access to the store reads or writes.
pub const READ_ALIGNMENT: usize = 4;

/// Number of block updates that are set aside, one for each chunk of the
/// world.
pub const RESERVED_UPDATES: u32 = 65536;

/// Where the parts of the store lie, in bytes from its start.
#[derive(Clone, Copy, Debug, PartialEq, Eq, Structural)]
pub struct World {
    pub max_update_count: u32,
    pub reserved_data_offset_bytes: u32,
    pub reserved_fill_offset_bytes: u32,
    pub data_offset_bytes: u32,
}

/// What is to be written to the store, and where.
#[derive(Clone, Copy, Debug)]
pub struct FlashWrite {
    pub offset: u32,
    pub bytes: [u8; 9],
}

impl World {
    /// Number of fill-marker bytes of a store of `partition_size` bytes:
    /// each block update takes nine bytes and one bit, and the updates are
    /// counted in whole marker bytes.
    pub open spec fn spec_marker_bytes(partition_size: int) -> int {
        ((partition_size * 8) / 73) / 8
    }

    /// Whether a store of `partition_size` bytes can be laid out: its size
    /// in bits can be counted, and it has room for more updates than are
    /// set aside.
    pub open spec fn fits(partition_size: int) -> bool {
        &&& partition_size * 8 <= u32::MAX
        &&& RESERVED_UPDATES < Self::spec_marker_bytes(partition_size) * 8
    }

    /// The layout of a store of `partition_size` bytes.
    pub open spec fn spec_new(partition_size: int) -> World {
        World {
            max_update_count: (Self::spec_marker_bytes(partition_size) * 8) as u32,
            reserved_data_offset_bytes: Self::spec_marker_bytes(partition_size) as u32,
            reserved_fill_offset_bytes: (RESERVED_UPDATES / 8) as u32,
            data_offset_bytes: (Self::spec_marker_bytes(partition_size) + RESERVED_UPDATES
                * BLOCK_UPDATE_SIZE) as u32,
        }
    }

    /// What holds of every layout that `new` makes.
    pub open spec fn wf(&self) -> bool {
        &&& self.max_update_count == self.reserved_data_offset_bytes * 8
        &&& self.reserved_fill_offset_bytes == RESERVED_UPDATES / 8
        &&& RESERVED_UPDATES < self.max_update_count
        &&& self.data_offset_bytes == self.reserved_data_offset_bytes + RESERVED_UPDATES
            * BLOCK_UPDATE_SIZE
        &&& self.reserved_data_offset_bytes * 73 <= u32::MAX / 8
    }

    /// Whether a store of `partition_size` bytes can be laid out.
    pub fn can_hold(partition_size: u32) -> (r: bool)
        ensures
            r == Self::fits(partition_size as int),
    {
        if partition_size > u32::MAX / 8 {
            return false;
        }
        let block_updates: u32 = (partition_size * 8) / (8 * BLOCK_UPDATE_SIZE + 1);
        let fill_marker_length: u32 = block_updates / 8;
        RESERVED_UPDATES < fill_marker_length * 8
    }

    /// Lays out a store of `partition_size` bytes that has room for more
    /// updates than are set aside. The markers and the updates together
    /// never take more than the store has.
    pub fn new(partition_size: u32) -> (r: Self)
        requires
            Self::fits(partition_size as int),
        ensures
            r == Self::spec_new(partition_size as int),
            r.wf(),
            r.max_update_count % 8 == 0,
            r.max_update_count * BLOCK_UPDATE_SIZE + r.reserved_data_offset_bytes
                <= partition_size,
    {
        let block_updates: u32 = (partition_size * 8) / (8 * BLOCK_UPDATE_SIZE + 1);
        let fill_marker_length: u32 = block_updates / 8;
        let block_updates: u32 = fill_marker_length * 8;
        let reserved: u32 = RESERVED_UPDATES;
        let reserve_aligned_bytes: u32 = reserved / 8;
        let data_offset: u32 = fill_marker_length + reserved * BLOCK_UPDATE_SIZE;
        World {
            max_update_count: block_updates,
            reserved_data_offset_bytes: fill_marker_length,
            reserved_fill_offset_bytes: reserve_aligned_bytes,
            data_offset_bytes: data_offset,
        }
    }

    /// The first position from `at` on, below `limit`, of a marker byte with
    /// a bit that is not set; `limit` where there is none.
    pub open spec fn first_free(bytes: Seq<u8>, at: int, limit: int) -> int
        decreases limit - at,
    {
        if at >= limit {
            limit
        } else if bytes[at] != 255 {
            at
        } else {
            Self::first_free(bytes, at + 1, limit)
        }
    }

    /// Looks for a free place among the fill markers that were read at
    /// `offset`: the first marker byte, among those that belong to the map,
    /// with a bit that is not set. The pointer counts eight for each byte
    /// before the chunk and one for each byte inside it, and keeps the low
    /// twenty-four bits of that.
    pub fn find_free_space(&self, offset: u32, bytes: &[u8]) -> (r: Option<BlockUpdatePointer>)
        requires
            self.wf(),
            offset < self.reserved_data_offset_bytes,
            bytes@.len() == CHUNKED_READ_ALIGNMENT,
        ensures
            r is Some <==> Self::first_free(bytes@, 0, Self::spec_to_use(*self, offset))
                < Self::spec_to_use(*self, offset),
            r matches Some(p) ==> p.value() == (offset * 8 + Self::first_free(
                bytes@,
                0,
                Self::spec_to_use(*self, offset),
            )) % 0x100_0000,
    {
        let left: u32 = self.reserved_data_offset_bytes - offset;
        let to_use: usize = if left < 128 {
            left as usize
        } else {
            CHUNKED_READ_ALIGNMENT
        };
        let mut byte_i: usize = 0;
        while byte_i < to_use
            invariant
                byte_i <= to_use,
                to_use == Self::spec_to_use(*self, offset),
                to_use <= bytes@.len(),
                self.wf(),
                offset < self.reserved_data_offset_bytes,
                Self::first_free(bytes@, 0, to_use as int) == Self::first_free(
                    bytes@,
                    byte_i as int,
                    to_use as int,
                ),
            decreases to_use - byte_i,
        {
            if bytes[byte_i] != u8::MAX {
                return Some(BlockUpdatePointer::from_u32(offset * 8 + byte_i as u32));
            }
            byte_i = byte_i + 1;
        }
        None
    }

    /// Number of bytes of a chunk read at `offset` that belong to the map.
    pub open spec fn spec_to_use(world: World, offset: u32) -> int {
        if world.reserved_data_offset_bytes - offset < CHUNKED_READ_ALIGNMENT {
            world.reserved_data_offset_bytes - offset
        } else {
            CHUNKED_READ_ALIGNMENT as int
        }
    }

    /// Where the marker byte of the place `pointer` lies.
    pub fn fill_marker_offset(&self, pointer: u32) -> (r: u32)
        requires
            pointer >= self.reserved_data_offset_bytes,
        ensures
            r == (pointer - self.reserved_data_offset_bytes) / 8,
    {
        (pointer - self.reserved_data_offset_bytes) / 8
    }

    /// The marker bytes `buf`, read from where the marker of the place
    /// `pointer` lies, with the bit of that place set.
    pub fn mark_space_filled(&self, pointer: u32, buf: [u8; 4]) -> (r: [u8; 4])
        requires
            pointer >= self.reserved_data_offset_bytes,
        ensures
            r@ == buf@.update(
                0,
                buf@[0] | (1u8 << ((pointer - self.reserved_data_offset_bytes) % 8) as u8),
            ),
    {
        let pointer: u32 = pointer - self.reserved_data_offset_bytes;
        let byte_offset: u32 = pointer / 8;
        let bit_offset: u32 = pointer - byte_offset * 8;
        let mut marked = buf;
        let shift: u8 = bit_offset as u8;
        assert(shift < 8);
        marked[0] = marked[0] | (1u8 << shift);
        assert(marked@ =~= buf@.update(0, buf@[0] | (1u8 << shift)));
        marked
    }

    /// Where the update that `pointer` names is stored, and the bytes that
    /// are stored there.
    pub fn write_block_update(&self, pointer: BlockUpdatePointer, value: BlockUpdate) -> (r:
        FlashWrite)
        ensures
            r.offset == pointer.value() * BLOCK_UPDATE_SIZE,
            r.bytes@ == value.layout(),
    {
        let memory_offset: u32 = pointer.to_u32() * BLOCK_UPDATE_SIZE;
        FlashWrite { offset: memory_offset, bytes: value.to_bytes() }
    }
}

} // verus!
