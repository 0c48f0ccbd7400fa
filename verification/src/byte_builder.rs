use vstd::prelude::*;

verus! {

/// Builds a little-endian byte message piece by piece.
pub struct ByteBuilder {
    buffer: Vec<u8>,
}

/// The little-endian bytes of a `u16`.
pub open spec fn le_u16(v: u16) -> Seq<u8> {
    seq![(v % 256) as u8, (v / 256) as u8]
}

/// The little-endian bytes of an `i32`, two's complement.
pub open spec fn le_i32(v: i32) -> Seq<u8> {
    let u = v as u32;
    seq![(u % 256) as u8, ((u / 256) % 256) as u8, ((u / 65536) % 256) as u8, (u / 16777216) as u8]
}

/// The `u16` that two little-endian bytes encode.
pub open spec fn from_le_u16(b: Seq<u8>) -> u16 {
    (b[0] + b[1] * 256) as u16
}

/// The `i32` that four little-endian bytes encode, two's complement.
pub open spec fn from_le_i32(b: Seq<u8>) -> i32 {
    (b[0] + b[1] * 256 + b[2] * 65536 + b[3] * 16777216) as i32
}

/// Law: the bytes written for a `u16` read back as the same value.
pub proof fn lemma_le_u16_roundtrip(v: u16)
    ensures
        from_le_u16(le_u16(v)) == v,
{
}

/// Law: the bytes written for an `i32` read back as the same value.
pub proof fn lemma_le_i32_roundtrip(v: i32)
    ensures
        from_le_i32(le_i32(v)) == v,
{
    let u = v as u32;
    assert((u % 256) + ((u / 256) % 256) * 256 + ((u / 65536) % 256) * 65536 + (u / 16777216) * 16777216 == u)
        by (nonlinear_arith);
    assert((v as u32) as i32 == v) by (bit_vector);
}

/// Reads the `index`-th little-endian `i32` of `bytes`.
pub fn read_i32(bytes: &[u8], index: usize) -> (v: i32)
    requires
        index * 4 + 4 <= bytes@.len(),
    ensures
        v == from_le_i32(bytes@.subrange(index * 4, index * 4 + 4)),
{
    let n = bytes.len();
    assert(index * 4 + 4 <= n);
    let i = index * 4;
    let u: u32 = bytes[i] as u32 + bytes[i + 1] as u32 * 256 + bytes[i + 2] as u32 * 65536 + bytes[i + 3] as u32
        * 16777216;
    #[verifier::truncate]
    (u as i32)
}

impl View for ByteBuilder {
    type V = Seq<u8>;

    /// The bytes written so far.
    closed spec fn view(&self) -> Seq<u8> {
        self.buffer@
    }
}

impl ByteBuilder {
    pub fn new() -> (b: Self)
        ensures
            b@ == Seq::<u8>::empty(),
    {
        Self { buffer: Vec::with_capacity(64) }
    }

    pub fn build(self) -> (bytes: Vec<u8>)
        ensures
            bytes@ == self@,
    {
        self.buffer
    }

    pub fn u8(self, value: u8) -> (b: Self)
        ensures
            b@ == self@.push(value),
    {
        let mut s = self;
        s.buffer.push(value);
        s
    }

    pub fn u16(self, value: u16) -> (b: Self)
        ensures
            b@ == self@ + le_u16(value),
    {
        let mut s = self;
        s.buffer.push((value % 256) as u8);
        s.buffer.push((value / 256) as u8);
        assert(s.buffer@ =~= self@ + le_u16(value));
        s
    }

    pub fn i32(self, value: i32) -> (b: Self)
        ensures
            b@ == self@ + le_i32(value),
    {
        let u = value as u32;
        let mut s = self;
        s.buffer.push((u % 256) as u8);
        s.buffer.push(((u / 256) % 256) as u8);
        s.buffer.push(((u / 65536) % 256) as u8);
        s.buffer.push((u / 16777216) as u8);
        assert(s.buffer@ =~= self@ + le_i32(value));
        s
    }
}

} // verus!
