//! Big-endian primitives of the class file format.
//!
//! Decoders read from a byte sequence at a position, never past a limit
//! `end`; encoders append to a growing buffer.
use vstd::prelude::*;

verus! {

/// What went wrong while decoding.
#[derive(Clone, Copy, Debug, PartialEq, Eq, Structural)]
pub enum FaultKind {
    /// The region ends before the value that starts at the offset.
    Truncated,
    /// The first four bytes are not `CA FE BA BE`.
    BadMagic,
    /// A length-framed payload was not consumed exactly.
    LengthMismatch,
    /// The opcode at the offset has no decodable layout.
    UnsupportedOpcode,
    /// Bytes remain after the last class attribute.
    TrailingBytes,
    /// An eight-byte constant starts in the last slot of the pool.
    PoolOverrun,
    /// The count of the constant pool is zero.
    EmptyPoolCount,
    /// The tag at the offset is not one that the format defines there.
    UnknownTag,
}

/// A decoding failure at a byte offset of the input.
#[derive(Clone, Copy, Debug, PartialEq, Eq, Structural)]
pub struct Fault {
    pub kind: FaultKind,
    pub offset: usize,
}

/// Why a structure has no encoding.
#[derive(Clone, Copy, Debug, PartialEq, Eq, Structural)]
pub enum Flaw {
    /// A constant pool index does not fit in sixteen bits.
    IndexOutOfRange,
    /// A list has more entries than its count can hold.
    CountOutOfRange,
    /// A payload is longer than its length field can hold.
    LengthOutOfRange,
    /// A placeholder does not follow an eight-byte constant, or such a
    /// constant is not followed by one.
    MisplacedPlaceholder,
    /// An `Unknown` constant holds a tag that is defined.
    DefinedTag,
    /// No `Utf8` constant of the pool holds the name of the attribute.
    MissingName,
    /// A raw attribute bears the name of a structured one.
    StructuredName,
    /// The model holds no operands for the instruction.
    UnsupportedInstruction,
    /// The model does not hold the whole payload of the attribute.
    UnsupportedAttribute,
}

/// The encoding `a` followed by `b`; the first flaw where one has one.
pub open spec fn then<E>(a: Result<Seq<u8>, E>, b: Result<Seq<u8>, E>) -> Result<Seq<u8>, E> {
    match a {
        Err(e) => Err(e),
        Ok(x) => match b {
            Err(e) => Err(e),
            Ok(y) => Ok(x + y),
        },
    }
}

/// The items `acc` followed by those of `r`.
pub open spec fn prepend<T>(acc: Seq<T>, r: Result<(Seq<T>, int), Fault>) -> Result<
    (Seq<T>, int),
    Fault,
> {
    match r {
        Ok((rest, p)) => Ok((acc + rest, p)),
        Err(e) => Err(e),
    }
}

/// An executable decoder's result `r` is what the specification `spec`
/// says, and the new position lies between `pos` and `end`.
pub open spec fn agrees<T: View>(
    r: Result<(T, usize), Fault>,
    spec: Result<(T::V, int), Fault>,
    pos: usize,
    end: usize,
) -> bool {
    match r {
        Ok((v, p)) => spec == Ok::<(T::V, int), Fault>((v@, p as int)) && pos <= p <= end,
        Err(e) => spec == Err::<(T::V, int), Fault>(e),
    }
}

/// As [`agrees`], for a value of which `view` gives the view.
pub open spec fn agrees_with<T, V>(
    r: Result<(T, usize), Fault>,
    view: spec_fn(T) -> V,
    spec: Result<(V, int), Fault>,
    pos: usize,
    end: usize,
) -> bool {
    match r {
        Ok((v, p)) => spec == Ok::<(V, int), Fault>((view(v), p as int)) && pos <= p <= end,
        Err(e) => spec == Err::<(V, int), Fault>(e),
    }
}

/// As [`agrees`], for a value that is its own view.
pub open spec fn agrees_plain<T>(
    r: Result<(T, usize), Fault>,
    spec: Result<(T, int), Fault>,
    pos: usize,
    end: usize,
) -> bool {
    match r {
        Ok((v, p)) => spec == Ok::<(T, int), Fault>((v, p as int)) && pos <= p <= end,
        Err(e) => spec == Err::<(T, int), Fault>(e),
    }
}

/// An executable encoder with result `r` has appended to `before` what
/// the specification `spec` says, or failed with its flaw.
pub open spec fn appended(
    r: Result<(), Flaw>,
    spec: Result<Seq<u8>, Flaw>,
    before: Seq<u8>,
    after: Seq<u8>,
) -> bool {
    match spec {
        Ok(e) => r is Ok && after == before + e,
        Err(f) => r == Err::<(), Flaw>(f),
    }
}

/// A fault of kind `kind` at position `pos`.
pub open spec fn fault(kind: FaultKind, pos: int) -> Fault {
    Fault { kind, offset: pos as usize }
}

/// The fault of a region that ends before the value at `pos`.
pub open spec fn truncated(pos: int) -> Fault {
    fault(FaultKind::Truncated, pos)
}

/// The two bytes of `v`, most significant first.
pub open spec fn be16(v: u16) -> Seq<u8> {
    seq![(v / 256) as u8, (v % 256) as u8]
}

/// The four bytes of `v`, most significant first.
#[verifier::opaque]
pub open spec fn be32(v: u32) -> Seq<u8> {
    seq![
        (v / 0x100_0000) as u8,
        (v / 0x1_0000 % 256) as u8,
        (v / 0x100 % 256) as u8,
        (v % 256) as u8,
    ]
}

/// The eight bytes of `v`, most significant first.
#[verifier::opaque]
pub open spec fn be64(v: u64) -> Seq<u8> {
    be32((v / 0x1_0000_0000) as u32) + be32((v % 0x1_0000_0000) as u32)
}

/// The unsigned bit pattern of a signed 32-bit value.
pub open spec fn bits32(v: i32) -> u32 {
    if v >= 0 {
        v as u32
    } else {
        (v + 0x1_0000_0000) as u32
    }
}

/// The signed value of a 32-bit pattern.
pub open spec fn signed32(u: u32) -> i32 {
    if u < 0x8000_0000 {
        u as i32
    } else {
        (u - 0x1_0000_0000) as i32
    }
}

/// The unsigned bit pattern of a signed byte.
pub open spec fn bits8(v: i8) -> u8 {
    if v >= 0 {
        v as u8
    } else {
        (v + 256) as u8
    }
}

/// The signed value of a byte.
pub open spec fn signed8(u: u8) -> i8 {
    if u < 128 {
        u as i8
    } else {
        (u - 256) as i8
    }
}

/// The sixteen-bit value that the two bytes at `pos` hold.
pub open spec fn word16(s: Seq<u8>, pos: int) -> u16 {
    (s[pos] as int * 256 + s[pos + 1] as int) as u16
}

/// The 32-bit value that the four bytes at `pos` hold.
#[verifier::opaque]
pub open spec fn word32(s: Seq<u8>, pos: int) -> u32 {
    (s[pos] as int * 0x100_0000 + s[pos + 1] as int * 0x1_0000 + s[pos + 2] as int * 0x100 + s[pos
        + 3] as int) as u32
}

/// The 64-bit value that the eight bytes at `pos` hold.
#[verifier::opaque]
pub open spec fn word64(s: Seq<u8>, pos: int) -> u64 {
    (word32(s, pos) as int * 0x1_0000_0000 + word32(s, pos + 4) as int) as u64
}

/// A 32-bit value has four bytes.
pub broadcast proof fn lemma_be32_len(v: u32)
    ensures
        #[trigger] be32(v).len() == 4,
{
    reveal(be32);
}

/// A 64-bit value has eight bytes.
pub broadcast proof fn lemma_be64_len(v: u64)
    ensures
        #[trigger] be64(v).len() == 8,
{
    reveal(be64);
    lemma_be32_len((v / 0x1_0000_0000) as u32);
    lemma_be32_len((v % 0x1_0000_0000) as u32);
}

pub broadcast group group_wire_lengths {
    lemma_be32_len,
    lemma_be64_len,
}

/// A decoder's position is inside the region it may read.
pub open spec fn in_region(s: Seq<u8>, pos: int, end: int) -> bool {
    0 <= pos <= end <= s.len()
}

/// The byte at `pos`, if the region holds it.
pub open spec fn take_u8(s: Seq<u8>, pos: int, end: int) -> Result<(u8, int), Fault> {
    if pos + 1 <= end {
        Ok((s[pos], pos + 1))
    } else {
        Err(truncated(pos))
    }
}

/// The sixteen-bit value at `pos`, if the region holds it.
pub open spec fn take_u16(s: Seq<u8>, pos: int, end: int) -> Result<(u16, int), Fault> {
    if pos + 2 <= end {
        Ok((word16(s, pos), pos + 2))
    } else {
        Err(truncated(pos))
    }
}

/// The 32-bit value at `pos`, if the region holds it.
pub open spec fn take_u32(s: Seq<u8>, pos: int, end: int) -> Result<(u32, int), Fault> {
    if pos + 4 <= end {
        Ok((word32(s, pos), pos + 4))
    } else {
        Err(truncated(pos))
    }
}

/// The 64-bit value at `pos`, if the region holds it.
pub open spec fn take_u64(s: Seq<u8>, pos: int, end: int) -> Result<(u64, int), Fault> {
    if pos + 8 <= end {
        Ok((word64(s, pos), pos + 8))
    } else {
        Err(truncated(pos))
    }
}

/// The `n` bytes at `pos`.
pub open spec fn take_bytes(s: Seq<u8>, pos: int, end: int, n: int) -> Result<(Seq<u8>, int), Fault> {
    if pos + n <= end {
        Ok((s.subrange(pos, pos + n), pos + n))
    } else {
        Err(truncated(pos))
    }
}

/// `e` stands in `s` at `pos`.
pub open spec fn occurs(s: Seq<u8>, pos: int, e: Seq<u8>) -> bool {
    &&& 0 <= pos
    &&& pos + e.len() <= s.len()
    &&& forall|i: int| 0 <= i < e.len() ==> s[pos + i] == #[trigger] e[i]
}

/// Where `a + b` stands at `pos`, `a` stands at `pos` and `b` after it.
pub proof fn lemma_occurs_split(s: Seq<u8>, pos: int, a: Seq<u8>, b: Seq<u8>)
    requires
        occurs(s, pos, a + b),
    ensures
        occurs(s, pos, a),
        occurs(s, pos + a.len(), b),
{
    assert forall|i: int| 0 <= i < a.len() implies s[pos + i] == #[trigger] a[i] by {
        assert((a + b)[i] == a[i]);
    }
    assert forall|i: int| 0 <= i < b.len() implies s[pos + a.len() + i] == #[trigger] b[i] by {
        assert((a + b)[a.len() + i] == b[i]);
    }
}

/// A sequence stands in itself at the start.
pub proof fn lemma_occurs_self(e: Seq<u8>)
    ensures
        occurs(e, 0, e),
{
}

/// A byte that stands at `pos` is read there.
pub proof fn lemma_occurs_u8(s: Seq<u8>, pos: int, end: int, v: u8)
    requires
        occurs(s, pos, seq![v]),
        pos + 1 <= end,
    ensures
        take_u8(s, pos, end) == Ok::<(u8, int), Fault>((v, pos + 1)),
{
    assert(seq![v][0] == v);
}

/// A sixteen-bit value whose bytes stand at `pos` is read there.
pub proof fn lemma_occurs_u16(s: Seq<u8>, pos: int, end: int, v: u16)
    requires
        occurs(s, pos, be16(v)),
        pos + 2 <= end,
    ensures
        take_u16(s, pos, end) == Ok::<(u16, int), Fault>((v, pos + 2)),
{
    let e = be16(v);
    assert(s[pos + 0] == e[0]);
    assert(s[pos + 1] == e[1]);
}

/// The four bytes of a value hold that value.
pub proof fn lemma_word32(s: Seq<u8>, pos: int, v: u32)
    requires
        occurs(s, pos, be32(v)),
    ensures
        word32(s, pos) == v,
{
    reveal(be32);
    reveal(word32);
    let e = be32(v);
    assert(s[pos + 0] == e[0]);
    assert(s[pos + 1] == e[1]);
    assert(s[pos + 2] == e[2]);
    assert(s[pos + 3] == e[3]);
}

/// A 32-bit value whose bytes stand at `pos` is read there.
pub proof fn lemma_occurs_u32(s: Seq<u8>, pos: int, end: int, v: u32)
    requires
        occurs(s, pos, be32(v)),
        pos + 4 <= end,
    ensures
        take_u32(s, pos, end) == Ok::<(u32, int), Fault>((v, pos + 4)),
{
    lemma_word32(s, pos, v);
    lemma_be32_len(v);
}

/// A 64-bit value whose bytes stand at `pos` is read there.
pub proof fn lemma_occurs_u64(s: Seq<u8>, pos: int, end: int, v: u64)
    requires
        occurs(s, pos, be64(v)),
        pos + 8 <= end,
    ensures
        take_u64(s, pos, end) == Ok::<(u64, int), Fault>((v, pos + 8)),
{
    reveal(be64);
    reveal(word64);
    let hi = (v / 0x1_0000_0000) as u32;
    let lo = (v % 0x1_0000_0000) as u32;
    lemma_be32_len(hi);
    lemma_be32_len(lo);
    lemma_occurs_split(s, pos, be32(hi), be32(lo));
    lemma_word32(s, pos, hi);
    lemma_word32(s, pos + 4, lo);
}

/// Bytes that stand at `pos` are read there.
pub proof fn lemma_occurs_bytes(s: Seq<u8>, pos: int, end: int, e: Seq<u8>)
    requires
        occurs(s, pos, e),
        pos + e.len() <= end,
    ensures
        take_bytes(s, pos, end, e.len() as int) == Ok::<(Seq<u8>, int), Fault>((e, pos + e.len())),
{
    assert(s.subrange(pos, pos + e.len()) =~= e);
}

/// Where `a` stands at `pos` and `b` after it, `a + b` stands at `pos`.
pub proof fn lemma_occurs_join(s: Seq<u8>, pos: int, a: Seq<u8>, b: Seq<u8>)
    requires
        occurs(s, pos, a),
        occurs(s, pos + a.len(), b),
    ensures
        occurs(s, pos, a + b),
{
    let e = a + b;
    assert forall|i: int| 0 <= i < e.len() implies s[pos + i] == #[trigger] e[i] by {
        if i < a.len() {
            assert(e[i] == a[i]);
        } else {
            assert(e[i] == b[i - a.len()]);
            assert(s[pos + a.len() + (i - a.len())] == b[i - a.len()]);
        }
    }
}

/// The byte at `pos` stands there.
pub proof fn lemma_u8_stands(s: Seq<u8>, pos: int)
    requires
        0 <= pos < s.len(),
    ensures
        occurs(s, pos, seq![s[pos]]),
{
}

/// The bytes of the sixteen-bit value at `pos` stand there.
pub proof fn lemma_u16_stands(s: Seq<u8>, pos: int)
    requires
        0 <= pos,
        pos + 2 <= s.len(),
    ensures
        occurs(s, pos, be16(word16(s, pos))),
{
    let e = be16(word16(s, pos));
    assert(e[0] == s[pos]);
    assert(e[1] == s[pos + 1]);
    assert forall|i: int| 0 <= i < e.len() implies s[pos + i] == #[trigger] e[i] by {
        if i == 0 {
        } else {
            assert(i == 1);
        }
    }
}

/// The four bytes of a value come back from the value.
proof fn lemma_split32(b0: int, b1: int, b2: int, b3: int)
    requires
        0 <= b0 < 256,
        0 <= b1 < 256,
        0 <= b2 < 256,
        0 <= b3 < 256,
    ensures
        ({
            let v = b0 * 0x100_0000 + b1 * 0x1_0000 + b2 * 0x100 + b3;
            &&& 0 <= v < 0x1_0000_0000
            &&& v / 0x100_0000 == b0
            &&& v / 0x1_0000 % 256 == b1
            &&& v / 0x100 % 256 == b2
            &&& v % 256 == b3
        }),
{
    let v = b0 * 0x100_0000 + b1 * 0x1_0000 + b2 * 0x100 + b3;
    assert(v / 0x100_0000 == b0);
    assert(v / 0x1_0000 == b0 * 0x100 + b1);
    assert(v / 0x100 == b0 * 0x1_0000 + b1 * 0x100 + b2);
}

/// The bytes of the 32-bit value at `pos` stand there.
pub proof fn lemma_u32_stands(s: Seq<u8>, pos: int)
    requires
        0 <= pos,
        pos + 4 <= s.len(),
    ensures
        occurs(s, pos, be32(word32(s, pos))),
{
    lemma_split32(s[pos] as int, s[pos + 1] as int, s[pos + 2] as int, s[pos + 3] as int);
    let v = word32(s, pos);
    let e = be32(v);
    assert(v == s[pos] as int * 0x100_0000 + s[pos + 1] as int * 0x1_0000 + s[pos + 2] as int * 0x100
        + s[pos + 3] as int) by {
        reveal(word32);
    }
    assert(e.len() == 4 && e[0] == s[pos] && e[1] == s[pos + 1] && e[2] == s[pos + 2] && e[3] == s[pos
        + 3]) by {
        reveal(be32);
    }
    assert forall|i: int| 0 <= i < e.len() implies s[pos + i] == #[trigger] e[i] by {
        if i == 0 {
        } else if i == 1 {
        } else if i == 2 {
        } else {
            assert(i == 3);
        }
    }
}

/// The bytes of the 64-bit value at `pos` stand there.
pub proof fn lemma_u64_stands(s: Seq<u8>, pos: int)
    requires
        0 <= pos,
        pos + 8 <= s.len(),
    ensures
        occurs(s, pos, be64(word64(s, pos))),
{
    reveal(be64);
    reveal(word64);
    let hi = word32(s, pos);
    let lo = word32(s, pos + 4);
    let v = word64(s, pos);
    assert((v / 0x1_0000_0000) as u32 == hi);
    assert((v % 0x1_0000_0000) as u32 == lo);
    lemma_u32_stands(s, pos);
    lemma_u32_stands(s, pos + 4);
    lemma_be32_len(hi);
    lemma_occurs_join(s, pos, be32(hi), be32(lo));
}

/// The bytes from `pos` to `pos + n` stand at `pos`.
pub proof fn lemma_bytes_stand(s: Seq<u8>, pos: int, n: int)
    requires
        0 <= pos,
        0 <= n,
        pos + n <= s.len(),
    ensures
        occurs(s, pos, s.subrange(pos, pos + n)),
{
}

/// A bit pattern comes back from its signed value.
pub proof fn lemma_bits_signed32(u: u32)
    ensures
        bits32(signed32(u)) == u,
{
}

/// A byte comes back from its signed value.
pub proof fn lemma_bits_signed8(u: u8)
    ensures
        bits8(signed8(u)) == u,
{
}

/// A signed value comes back from its bit pattern.
pub proof fn lemma_signed_bits32(v: i32)
    ensures
        signed32(bits32(v)) == v,
{
}

/// Reads the byte at `pos`.
pub fn get_u8(b: &[u8], pos: usize, end: usize) -> (r: Result<(u8, usize), Fault>)
    requires
        in_region(b@, pos as int, end as int),
    ensures
        agrees_plain(r, take_u8(b@, pos as int, end as int), pos, end),
{
    if end - pos >= 1 {
        Ok((b[pos], pos + 1))
    } else {
        Err(Fault { kind: FaultKind::Truncated, offset: pos })
    }
}

/// Reads the sixteen-bit value at `pos`.
pub fn get_u16(b: &[u8], pos: usize, end: usize) -> (r: Result<(u16, usize), Fault>)
    requires
        in_region(b@, pos as int, end as int),
    ensures
        agrees_plain(r, take_u16(b@, pos as int, end as int), pos, end),
{
    if end - pos >= 2 {
        let v: u16 = (b[pos] as u16) * 256 + (b[pos + 1] as u16);
        Ok((v, pos + 2))
    } else {
        Err(Fault { kind: FaultKind::Truncated, offset: pos })
    }
}

/// The sixteen-bit value at `pos`.
pub fn peek_u16(b: &[u8], pos: usize) -> (v: u16)
    requires
        pos + 2 <= b@.len(),
    ensures
        v == word16(b@, pos as int),
{
    (b[pos] as u16) * 256 + (b[pos + 1] as u16)
}

/// Reads the 32-bit value at `pos`.
pub fn get_u32(b: &[u8], pos: usize, end: usize) -> (r: Result<(u32, usize), Fault>)
    requires
        in_region(b@, pos as int, end as int),
    ensures
        agrees_plain(r, take_u32(b@, pos as int, end as int), pos, end),
{
    reveal(word32);
    if end - pos >= 4 {
        let v: u32 = (b[pos] as u32) * 0x100_0000 + (b[pos + 1] as u32) * 0x1_0000 + (b[pos
            + 2] as u32) * 0x100 + (b[pos + 3] as u32);
        Ok((v, pos + 4))
    } else {
        Err(Fault { kind: FaultKind::Truncated, offset: pos })
    }
}

/// Reads the 64-bit value at `pos`.
pub fn get_u64(b: &[u8], pos: usize, end: usize) -> (r: Result<(u64, usize), Fault>)
    requires
        in_region(b@, pos as int, end as int),
    ensures
        agrees_plain(r, take_u64(b@, pos as int, end as int), pos, end),
{
    reveal(word32);
    reveal(word64);
    if end - pos >= 8 {
        let hi: u32 = (b[pos] as u32) * 0x100_0000 + (b[pos + 1] as u32) * 0x1_0000 + (b[pos
            + 2] as u32) * 0x100 + (b[pos + 3] as u32);
        let lo: u32 = (b[pos + 4] as u32) * 0x100_0000 + (b[pos + 5] as u32) * 0x1_0000 + (b[pos
            + 6] as u32) * 0x100 + (b[pos + 7] as u32);
        let v: u64 = (hi as u64) * 0x1_0000_0000 + (lo as u64);
        Ok((v, pos + 8))
    } else {
        Err(Fault { kind: FaultKind::Truncated, offset: pos })
    }
}

/// Copies the `n` bytes at `pos`.
pub fn get_bytes(b: &[u8], pos: usize, end: usize, n: usize) -> (r: Result<(Vec<u8>, usize), Fault>)
    requires
        in_region(b@, pos as int, end as int),
    ensures
        agrees(r, take_bytes(b@, pos as int, end as int, n as int), pos, end),
{
    if end - pos >= n {
        let mut v: Vec<u8> = Vec::new();
        let mut i: usize = 0;
        while i < n
            invariant
                i <= n,
                pos + n <= end <= b@.len(),
                v@ == b@.subrange(pos as int, pos + i),
            decreases n - i,
        {
            v.push(b[pos + i]);
            i = i + 1;
        }
        Ok((v, pos + n))
    } else {
        Err(Fault { kind: FaultKind::Truncated, offset: pos })
    }
}

/// Appends one byte.
pub fn put_u8(out: &mut Vec<u8>, v: u8)
    ensures
        final(out)@ == old(out)@ + seq![v],
{
    out.push(v);
}

/// Appends the two bytes of `v`.
pub fn put_u16(out: &mut Vec<u8>, v: u16)
    ensures
        final(out)@ == old(out)@ + be16(v),
{
    out.push((v / 256) as u8);
    out.push((v % 256) as u8);
}

/// Appends the four bytes of `v`.
pub fn put_u32(out: &mut Vec<u8>, v: u32)
    ensures
        final(out)@ == old(out)@ + be32(v),
{
    reveal(be32);
    out.push((v / 0x100_0000) as u8);
    out.push((v / 0x1_0000 % 256) as u8);
    out.push((v / 0x100 % 256) as u8);
    out.push((v % 256) as u8);
}

/// Appends the eight bytes of `v`.
pub fn put_u64(out: &mut Vec<u8>, v: u64)
    ensures
        final(out)@ == old(out)@ + be64(v),
{
    reveal(be64);
    put_u32(out, (v / 0x1_0000_0000) as u32);
    put_u32(out, (v % 0x1_0000_0000) as u32);
}

/// Appends the bytes of `v`.
pub fn put_bytes(out: &mut Vec<u8>, v: &Vec<u8>)
    ensures
        final(out)@ == old(out)@ + v@,
{
    let mut i: usize = 0;
    while i < v.len()
        invariant
            i <= v.len(),
            out@ == old(out)@ + v@.subrange(0, i as int),
        decreases v.len() - i,
    {
        out.push(v[i]);
        i = i + 1;
    }
    assert(v@.subrange(0, v.len() as int) =~= v@);
}

/// The unsigned bit pattern of a signed 32-bit value.
pub fn i32_bits(v: i32) -> (u: u32)
    ensures
        u == bits32(v),
{
    if v >= 0 {
        v as u32
    } else {
        ((v as i64) + 0x1_0000_0000) as u32
    }
}

/// The signed value of a 32-bit pattern.
pub fn i32_of_bits(u: u32) -> (v: i32)
    ensures
        v == signed32(u),
{
    if u < 0x8000_0000 {
        u as i32
    } else {
        ((u as i64) - 0x1_0000_0000) as i32
    }
}

/// The unsigned bit pattern of a signed byte.
pub fn i8_bits(v: i8) -> (u: u8)
    ensures
        u == bits8(v),
{
    if v >= 0 {
        v as u8
    } else {
        ((v as i16) + 256) as u8
    }
}

/// The signed value of a byte.
pub fn i8_of_bits(u: u8) -> (v: i8)
    ensures
        v == signed8(u),
{
    if u < 128 {
        u as i8
    } else {
        ((u as i16) - 256) as i8
    }
}

} // verus!
