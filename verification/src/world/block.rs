//! Fixed-width records of the world store and their byte layout.

use vstd::prelude::*;

verus! {

/// Position of a block inside a chunk, packed into sixteen bits:
/// `x` in bits 0..4, `z` in bits 4..8 and `y` in bits 8..16.
#[derive(Clone, Copy, Debug, PartialEq, Eq, Structural)]
pub struct PackedChunkPosition(pub u16);

impl PackedChunkPosition {
    /// The packed sixteen bits.
    pub open spec fn bits(self) -> u16 {
        self.0
    }

    /// The bits that `new` packs for the three coordinates.
    pub open spec fn packed(x: u8, y: u8, z: u8) -> u16 {
        (x as u16) | (((z as u16) << 4) & 0xff) | ((y as u16) << 8)
    }

    /// The coordinate in bits 0..4.
    pub fn x(&self) -> (r: u8)
        ensures
            r == self.0 % 16,
    {
        let v: u16 = self.0;
        assert(v & 0x000f == v % 16) by (bit_vector);
        assert(v & 0x000f < 16) by (bit_vector);
        (v & 0x000f) as u8
    }

    /// The coordinate in bits 4..8.
    pub fn z(&self) -> (r: u8)
        ensures
            r == (self.0 / 16) % 16,
    {
        let v: u16 = self.0;
        assert((v & 0x00f0) >> 4 == (v / 16) % 16) by (bit_vector);
        assert((v & 0x00f0) >> 4 < 16) by (bit_vector);
        ((v & 0x00f0) >> 4) as u8
    }

    /// The coordinate in bits 8..16.
    pub fn y(&self) -> (r: u8)
        ensures
            r == self.0 / 256,
    {
        let v: u16 = self.0;
        assert((v & 0xff00) >> 8 == v / 256) by (bit_vector);
        assert((v & 0xff00) >> 8 < 256) by (bit_vector);
        ((v & 0xff00) >> 8) as u8
    }

    /// Packs three coordinates. `x` is taken as it is and the low four bits of
    /// `z` are moved above it, so coordinates below sixteen come back
    /// unchanged from the accessors.
    pub fn new(x: u8, y: u8, z: u8) -> (r: Self)
        ensures
            r.0 == Self::packed(x, y, z),
    {
        let mut v: u16 = 0;
        v |= x as u16;
        let z_high: u8 = z << 4;
        assert(z_high as u16 == (((z as u16) << 4) & 0xff)) by (bit_vector)
            requires
                z_high == z << 4,
        ;
        v |= z_high as u16;
        let mut v_y: u16 = y as u16;
        v_y <<= 8;
        v |= v_y;
        assert(0u16 | (x as u16) == x as u16) by (bit_vector);
        PackedChunkPosition(v)
    }

    /// Coordinates inside a chunk survive packing: `y` always, `x` and `z`
    /// when they are below sixteen.
    pub proof fn lemma_new_round_trip(x: u8, y: u8, z: u8)
        requires
            x < 16,
            z < 16,
        ensures
            Self::packed(x, y, z) % 16 == x,
            (Self::packed(x, y, z) / 16) % 16 == z,
            Self::packed(x, y, z) / 256 == y,
    {
        let p = (x as u16) | (((z as u16) << 4) & 0xff) | ((y as u16) << 8);
        assert(p % 16 == x && (p / 16) % 16 == z && p / 256 == y) by (bit_vector)
            requires
                x < 16,
                z < 16,
                p == (x as u16) | (((z as u16) << 4) & 0xff) | ((y as u16) << 8),
        ;
    }
}

/// Kind of block that an update puts into the world.
#[derive(Clone, Copy, Debug, PartialEq, Eq, Structural)]
pub enum BlockType {
    NONE,
    AIR,
    STONE,
    DIRT,
}

impl BlockType {
    /// Number under which the kind is stored.
    pub open spec fn code(self) -> u16 {
        match self {
            BlockType::NONE => 0,
            BlockType::AIR => 1,
            BlockType::STONE => 2,
            BlockType::DIRT => 3,
        }
    }

    /// Number under which the kind is stored.
    pub fn to_u16(self) -> (r: u16)
        ensures
            r == self.code(),
    {
        match self {
            BlockType::NONE => 0,
            BlockType::AIR => 1,
            BlockType::STONE => 2,
            BlockType::DIRT => 3,
        }
    }

    /// The kind stored under `code`, if there is one.
    pub fn from_u16(code: u16) -> (r: Option<Self>)
        ensures
            code <= 3 <==> r is Some,
            r matches Some(b) ==> b.code() == code,
    {
        if code == 0 {
            Some(BlockType::NONE)
        } else if code == 1 {
            Some(BlockType::AIR)
        } else if code == 2 {
            Some(BlockType::STONE)
        } else if code == 3 {
            Some(BlockType::DIRT)
        } else {
            None
        }
    }
}

/// Index of a block update in the store, kept in three little-endian bytes.
#[derive(Clone, Copy, Debug)]
pub struct BlockUpdatePointer(pub [u8; 3]);

impl BlockUpdatePointer {
    /// The index that the three bytes stand for.
    pub open spec fn value(self) -> int {
        self.0[0] as int + 256 * (self.0[1] as int) + 65536 * (self.0[2] as int)
    }

    /// Keeps the low twenty-four bits of `value`.
    pub fn from_u32(value: u32) -> (r: Self)
        ensures
            r.value() == value % 0x100_0000,
    {
        let n1: u8 = (value & 0xff) as u8;
        let n2: u8 = ((value >> 8) & 0xff) as u8;
        let n3: u8 = ((value >> 16) & 0xff) as u8;
        assert((value & 0xff) + 256 * ((value >> 8) & 0xff) + 65536 * ((value >> 16) & 0xff)
            == value % 0x100_0000) by (bit_vector);
        assert(value & 0xff < 256 && (value >> 8) & 0xff < 256 && (value >> 16) & 0xff < 256)
            by (bit_vector);
        Self([n1, n2, n3])
    }

    /// The index that the three bytes stand for.
    pub fn to_u32(self) -> (r: u32)
        ensures
            r == self.value(),
            r < 0x100_0000,
    {
        let b0: u32 = self.0[0] as u32;
        let b1: u32 = self.0[1] as u32;
        let b2: u32 = self.0[2] as u32;
        b0 + 256 * b1 + 65536 * b2
    }
}

/// Number of bytes that one block update takes in the store.
pub const BLOCK_UPDATE_SIZE: u32 = 9;

/// One stored change of a block: where, what, and the next update of the
/// same chunk.
#[derive(Clone, Copy, Debug)]
pub struct BlockUpdate {
    pub pos: PackedChunkPosition,
    pub block: BlockType,
    pub next: BlockUpdatePointer,
    pub chunk_x: u8,
    pub chunk_z: u8,
}

impl BlockUpdate {
    /// The nine stored bytes: position and block kind as little-endian
    /// sixteen-bit numbers, the three pointer bytes, then the chunk
    /// coordinates.
    pub open spec fn layout(self) -> Seq<u8> {
        seq![
            (self.pos.0 % 256) as u8,
            (self.pos.0 / 256) as u8,
            (self.block.code() % 256) as u8,
            (self.block.code() / 256) as u8,
            self.next.0[0],
            self.next.0[1],
            self.next.0[2],
            self.chunk_x,
            self.chunk_z,
        ]
    }

    /// The nine bytes that are stored for the update.
    pub fn to_bytes(&self) -> (r: [u8; 9])
        ensures
            r@ == self.layout(),
    {
        let p: u16 = self.pos.0;
        let b: u16 = self.block.to_u16();
        let r: [u8; 9] = [
            (p % 256) as u8,
            (p / 256) as u8,
            (b % 256) as u8,
            (b / 256) as u8,
            self.next.0[0],
            self.next.0[1],
            self.next.0[2],
            self.chunk_x,
            self.chunk_z,
        ];
        assert(r@ =~= self.layout());
        r
    }

    /// Reads a record back; `None` where the bytes name no block kind.
    pub fn from_bytes(bytes: &[u8; 9]) -> (r: Option<Self>)
        ensures
            r is Some <==> bytes[2] as int + 256 * (bytes[3] as int) <= 3,
            r matches Some(u) ==> u.layout() == bytes@,
    {
        let p: u16 = bytes[0] as u16 + 256 * (bytes[1] as u16);
        let code: u16 = bytes[2] as u16 + 256 * (bytes[3] as u16);
        match BlockType::from_u16(code) {
            None => None,
            Some(block) => {
                let u = BlockUpdate {
                    pos: PackedChunkPosition(p),
                    block,
                    next: BlockUpdatePointer([bytes[4], bytes[5], bytes[6]]),
                    chunk_x: bytes[7],
                    chunk_z: bytes[8],
                };
                assert(u.layout() =~= bytes@);
                Some(u)
            },
        }
    }
}

/// Two pointers that stand for the same index hold the same three bytes.
pub proof fn lemma_pointer_value_injective(p: BlockUpdatePointer, q: BlockUpdatePointer)
    requires
        q.value() == p.value(),
    ensures
        q.0@ == p.0@,
{
    assert(q.0@ =~= p.0@);
}

} // verus!
