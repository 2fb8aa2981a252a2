//! Big-endian integers and length-prefixed framing over byte vectors.
use vstd::prelude::*;

verus! {

/// The four big-endian bytes of a 32-bit integer.
pub open spec fn be32(x: u32) -> Seq<u8> {
    seq![(x >> 24) as u8, (x >> 16) as u8, (x >> 8) as u8, x as u8]
}

/// The eight big-endian bytes of a 64-bit integer.
pub open spec fn be64(x: u64) -> Seq<u8> {
    seq![
        (x >> 56) as u8,
        (x >> 48) as u8,
        (x >> 40) as u8,
        (x >> 32) as u8,
        (x >> 24) as u8,
        (x >> 16) as u8,
        (x >> 8) as u8,
        x as u8,
    ]
}

/// The sixteen big-endian bytes of a 128-bit integer.
pub open spec fn be128(x: u128) -> Seq<u8> {
    be64((x >> 64) as u64) + be64(x as u64)
}

/// A byte string behind its length, written as a 64-bit integer.
pub open spec fn framed(bytes: Seq<u8>) -> Seq<u8> {
    be64(bytes.len() as u64) + bytes
}

/// The integer that four big-endian bytes stand for.
pub open spec fn from_be32(bytes: Seq<u8>) -> u32
    recommends
        bytes.len() == 4,
{
    (((bytes[0] as u32) << 24) | ((bytes[1] as u32) << 16) | ((bytes[2] as u32) << 8)
        | (bytes[3] as u32)) as u32
}

/// Reading four big-endian bytes undoes writing them.
pub proof fn be32_reads_back(x: u32)
    ensures
        from_be32(be32(x)) == x,
{
    assert((((((x >> 24) as u8) as u32) << 24) | ((((x >> 16) as u8) as u32) << 16) | ((((x
        >> 8) as u8) as u32) << 8) | ((x as u8) as u32)) == x) by (bit_vector);
}

/// Different 64-bit integers have different bytes.
pub proof fn be64_is_injective(x: u64, y: u64)
    requires
        be64(x) == be64(y),
    ensures
        x == y,
{
    let s = be64(x);
    let t = be64(y);
    assert(s[0] == t[0] && s[1] == t[1] && s[2] == t[2] && s[3] == t[3] && s[4] == t[4] && s[5]
        == t[5] && s[6] == t[6] && s[7] == t[7]);
    assert(x == y) by (bit_vector)
        requires
            (x >> 56) as u8 == (y >> 56) as u8,
            (x >> 48) as u8 == (y >> 48) as u8,
            (x >> 40) as u8 == (y >> 40) as u8,
            (x >> 32) as u8 == (y >> 32) as u8,
            (x >> 24) as u8 == (y >> 24) as u8,
            (x >> 16) as u8 == (y >> 16) as u8,
            (x >> 8) as u8 == (y >> 8) as u8,
            x as u8 == y as u8,
    ;
}

/// Different 128-bit integers have different bytes.
pub proof fn be128_is_injective(x: u128, y: u128)
    requires
        be128(x) == be128(y),
    ensures
        x == y,
{
    assert(be128(x).subrange(0, 8) =~= be64((x >> 64) as u64));
    assert(be128(y).subrange(0, 8) =~= be64((y >> 64) as u64));
    assert(be128(x).subrange(8, 16) =~= be64(x as u64));
    assert(be128(y).subrange(8, 16) =~= be64(y as u64));
    be64_is_injective((x >> 64) as u64, (y >> 64) as u64);
    be64_is_injective(x as u64, y as u64);
    assert(x == y) by (bit_vector)
        requires
            (x >> 64) as u64 == (y >> 64) as u64,
            x as u64 == y as u64,
    ;
}

/// A prefix of known length splits off.
pub proof fn split_prefix(a: Seq<u8>, b: Seq<u8>, x: Seq<u8>, y: Seq<u8>)
    requires
        a.len() == b.len(),
        a + x == b + y,
    ensures
        a == b,
        x == y,
{
    assert(a =~= (a + x).subrange(0, a.len() as int));
    assert(b =~= (b + y).subrange(0, b.len() as int));
    assert(x =~= (a + x).subrange(a.len() as int, (a + x).len() as int));
    assert(y =~= (b + y).subrange(b.len() as int, (b + y).len() as int));
}

/// A framed byte string tells where it ends.
pub proof fn split_framed(a: Seq<u8>, b: Seq<u8>, x: Seq<u8>, y: Seq<u8>)
    requires
        a.len() <= u64::MAX,
        b.len() <= u64::MAX,
        framed(a) + x == framed(b) + y,
    ensures
        a == b,
        x == y,
{
    assert(framed(a) + x =~= be64(a.len() as u64) + (a + x));
    assert(framed(b) + y =~= be64(b.len() as u64) + (b + y));
    split_prefix(be64(a.len() as u64), be64(b.len() as u64), a + x, b + y);
    be64_is_injective(a.len() as u64, b.len() as u64);
    split_prefix(a, b, x, y);
}

/// Append a byte string.
pub fn push_bytes(out: &mut Vec<u8>, bytes: &[u8])
    ensures
        final(out)@ == old(out)@ + bytes@,
{
    let mut i: usize = 0;
    while i < bytes.len()
        invariant
            i <= bytes.len(),
            out@ == old(out)@ + bytes@.subrange(0, i as int),
        decreases bytes.len() - i,
    {
        out.push(bytes[i]);
        i = i + 1;
        assert(bytes@.subrange(0, i as int) =~= bytes@.subrange(0, i - 1).push(bytes@[i - 1]));
    }
    assert(bytes@.subrange(0, i as int) =~= bytes@);
}

/// Append the four big-endian bytes of an integer.
pub fn push_be32(out: &mut Vec<u8>, x: u32)
    ensures
        final(out)@ == old(out)@ + be32(x),
{
    out.push((x >> 24) as u8);
    out.push((x >> 16) as u8);
    out.push((x >> 8) as u8);
    out.push(x as u8);
    assert(out@ =~= old(out)@ + be32(x));
}

/// Append the eight big-endian bytes of an integer.
pub fn push_be64(out: &mut Vec<u8>, x: u64)
    ensures
        final(out)@ == old(out)@ + be64(x),
{
    out.push((x >> 56) as u8);
    out.push((x >> 48) as u8);
    out.push((x >> 40) as u8);
    out.push((x >> 32) as u8);
    out.push((x >> 24) as u8);
    out.push((x >> 16) as u8);
    out.push((x >> 8) as u8);
    out.push(x as u8);
    assert(out@ =~= old(out)@ + be64(x));
}

/// Append the sixteen big-endian bytes of an integer.
pub fn push_be128(out: &mut Vec<u8>, x: u128)
    ensures
        final(out)@ == old(out)@ + be128(x),
{
    push_be64(out, (x >> 64) as u64);
    push_be64(out, x as u64);
    assert(out@ =~= old(out)@ + be128(x));
}

/// Append a byte string behind its length.
pub fn frame(out: &mut Vec<u8>, bytes: &[u8])
    ensures
        final(out)@ == old(out)@ + framed(bytes@),
{
    push_be64(out, bytes.len() as u64);
    push_bytes(out, bytes);
    assert(out@ =~= old(out)@ + framed(bytes@));
}

/// A copy of a byte string.
pub fn copy_bytes(bytes: &[u8]) -> (r: Vec<u8>)
    ensures
        r@ == bytes@,
{
    let mut out: Vec<u8> = Vec::new();
    push_bytes(&mut out, bytes);
    assert(out@ =~= bytes@);
    out
}

/// A memory in which bytes have been written at a place.
pub open spec fn overwritten(memory: Seq<u8>, start: int, bytes: Seq<u8>) -> Seq<u8> {
    memory.take(start) + bytes + memory.skip(start + bytes.len())
}

/// Write bytes at a place of a memory.
pub fn overwrite(memory: &mut [u8], start: usize, bytes: &[u8])
    requires
        start + bytes@.len() <= old(memory)@.len(),
    ensures
        final(memory)@ == overwritten(old(memory)@, start as int, bytes@),
{
    let ghost before = memory@;
    let length: usize = memory.len();
    let mut i: usize = 0;
    assert(memory@ =~= overwritten(before, start as int, bytes@.take(0)));
    while i < bytes.len()
        invariant
            i <= bytes.len(),
            length == memory@.len() == before.len(),
            start + bytes@.len() <= length,
            memory@ == overwritten(before, start as int, bytes@.take(i as int)),
        decreases bytes.len() - i,
    {
        memory[start + i] = bytes[i];
        i = i + 1;
        assert(memory@ =~= overwritten(before, start as int, bytes@.take(i as int)));
    }
    assert(bytes@.take(i as int) =~= bytes@);
}

/// Numbers are written with their highest byte first: each byte weighs 256 times
/// as much as the one after it.
pub proof fn numbers_are_written_highest_byte_first(x: u64, y: u32, z: u128)
    ensures
        be64(x).len() == 8,
        be64(x)[7] == x % 256,
        be64(x)[6] == (x / 0x100) % 256,
        be64(x)[5] == (x / 0x1_0000) % 256,
        be64(x)[4] == (x / 0x100_0000) % 256,
        be64(x)[3] == (x / 0x1_0000_0000) % 256,
        be64(x)[2] == (x / 0x100_0000_0000) % 256,
        be64(x)[1] == (x / 0x1_0000_0000_0000) % 256,
        be64(x)[0] == x / 0x100_0000_0000_0000,
        be32(y).len() == 4,
        be32(y)[3] == y % 256,
        be32(y)[2] == (y / 0x100) % 256,
        be32(y)[1] == (y / 0x1_0000) % 256,
        be32(y)[0] == y / 0x100_0000,
        be128(z).len() == 16,
        be128(z).take(8) == be64((z / 0x1_0000_0000_0000_0000) as u64),
        be128(z).skip(8) == be64((z % 0x1_0000_0000_0000_0000) as u64),
{
    assert(x as u8 == x % 256 && (x >> 8) as u8 == (x / 0x100) % 256 && (x >> 16) as u8 == (x
        / 0x1_0000) % 256 && (x >> 24) as u8 == (x / 0x100_0000) % 256 && (x >> 32) as u8 == (x
        / 0x1_0000_0000) % 256 && (x >> 40) as u8 == (x / 0x100_0000_0000) % 256 && (x
        >> 48) as u8 == (x / 0x1_0000_0000_0000) % 256 && (x >> 56) as u8 == x
        / 0x100_0000_0000_0000) by (bit_vector);
    assert(y as u8 == y % 256 && (y >> 8) as u8 == (y / 0x100) % 256 && (y >> 16) as u8 == (y
        / 0x1_0000) % 256 && (y >> 24) as u8 == y / 0x100_0000) by (bit_vector);
    assert((z >> 64) as u64 == (z / 0x1_0000_0000_0000_0000) as u64 && z as u64 == (z
        % 0x1_0000_0000_0000_0000) as u64) by (bit_vector);
    assert(be128(z).take(8) =~= be64((z / 0x1_0000_0000_0000_0000) as u64));
    assert(be128(z).skip(8) =~= be64((z % 0x1_0000_0000_0000_0000) as u64));
}

/// A framed byte string is eight bytes of length, then the byte string.
pub proof fn frames_tell_their_length(bytes: Seq<u8>)
    requires
        bytes.len() <= u64::MAX,
    ensures
        framed(bytes).len() == bytes.len() + 8,
        framed(bytes).take(8) == be64(bytes.len() as u64),
        framed(bytes).skip(8) == bytes,
{
    assert(framed(bytes).take(8) =~= be64(bytes.len() as u64));
    assert(framed(bytes).skip(8) =~= bytes);
}

/// The first of four bytes weighs most, and the last counts as it is.
pub proof fn four_bytes_are_read_highest_first(bytes: Seq<u8>)
    requires
        bytes.len() == 4,
    ensures
        from_be32(bytes) == bytes[0] * 0x100_0000 + bytes[1] * 0x1_0000 + bytes[2] * 0x100
            + bytes[3],
{
    let (a, b, c, d) = (bytes[0], bytes[1], bytes[2], bytes[3]);
    assert((((a as u32) << 24) | ((b as u32) << 16) | ((c as u32) << 8) | (d as u32)) == a
        * 0x100_0000 + b * 0x1_0000 + c * 0x100 + d) by (bit_vector);
}

/// Overwriting changes the bytes from a position on, as many as are written, and
/// no others.
pub proof fn overwriting_changes_one_place(before: Seq<u8>, at: int, written: Seq<u8>, k: int)
    requires
        0 <= at,
        at + written.len() <= before.len(),
        0 <= k < before.len(),
    ensures
        overwritten(before, at, written).len() == before.len(),
        at <= k < at + written.len() ==> overwritten(before, at, written)[k] == written[k - at],
        k < at || k >= at + written.len() ==> overwritten(before, at, written)[k] == before[k],
{
}

} // verus!
