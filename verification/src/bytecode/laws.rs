//! What holds of the codec as a whole.
use vstd::prelude::*;
use crate::bytecode::attr::dec_attrs;
use crate::bytecode::attr::enc_attrs;
use crate::bytecode::attr::lemma_attrs_encodable;
use crate::bytecode::attr::lemma_attrs_round_trip;
use crate::bytecode::classfile::AttributeView;
use crate::bytecode::classfile::ClassfileVersion;
use crate::bytecode::classfile::ClassfileView;
use crate::bytecode::classfile::ConstantPoolIndex;
use crate::bytecode::classfile::ConstantView;
use crate::bytecode::classfile::MemberView;
use crate::bytecode::codec::DecodeError;
use crate::bytecode::codec::EncodeError;
use crate::bytecode::codec::dec_body;
use crate::bytecode::codec::dec_classfile;
use crate::bytecode::codec::decode;
use crate::bytecode::codec::enc_class_info;
use crate::bytecode::codec::enc_classfile;
use crate::bytecode::codec::enc_header;
use crate::bytecode::codec::encode;
use crate::bytecode::codec::has_magic;
use crate::bytecode::codec::lemma_assemble_parts;
use crate::bytecode::member::dec_members;
use crate::bytecode::member::enc_members;
use crate::bytecode::member::lemma_members_encodable;
use crate::bytecode::member::lemma_members_round_trip;
use crate::bytecode::pool::dec_pool;
use crate::bytecode::pool::enc_constant;
use crate::bytecode::pool::enc_constants;
use crate::bytecode::pool::enc_pool;
use crate::bytecode::pool::lemma_pool_encodable;
use crate::bytecode::pool::lemma_pool_round_trip;
use crate::bytecode::record::dec_counted;
use crate::bytecode::record::enc_counted;
use crate::bytecode::record::lemma_counted_encodable;
use crate::bytecode::record::lemma_counted_round_trip;
use crate::bytecode::wire::Fault;
use crate::bytecode::wire::Flaw;
use crate::bytecode::wire::be16;
use crate::bytecode::wire::lemma_occurs_self;
use crate::bytecode::wire::lemma_occurs_split;
use crate::bytecode::wire::occurs;
use crate::bytecode::wire::word16;

verus! {

broadcast use crate::bytecode::wire::group_wire_lengths;

/// The header that was written is read back.
proof fn lemma_header_round_trip(version: ClassfileVersion, s: Seq<u8>)
    requires
        occurs(s, 0, enc_header(version)),
    ensures
        has_magic(s),
        s.len() >= 8,
        word16(s, 4) == version.minor_version,
        word16(s, 6) == version.major_version,
{
    let e = enc_header(version);
    assert(e.len() == 8);
    assert(s[0int + 0] == e[0]);
    assert(s[0int + 1] == e[1]);
    assert(s[0int + 2] == e[2]);
    assert(s[0int + 3] == e[3]);
    assert(s[0int + 4] == e[4]);
    assert(s[0int + 5] == e[5]);
    assert(s[0int + 6] == e[6]);
    assert(s[0int + 7] == e[7]);
}

/// The flags and the two indices of the class that were written are read
/// back.
proof fn lemma_class_info_round_trip(c: ClassfileView, s: Seq<u8>, pos: int)
    requires
        enc_class_info(c) matches Ok(e) && occurs(s, pos, e),
    ensures
        enc_class_info(c)->Ok_0.len() == 6,
        word16(s, pos) == c.access_flags.flags,
        word16(s, pos + 2) == c.this_class.idx,
        word16(s, pos + 4) == c.super_class.idx,
{
    let e = enc_class_info(c)->Ok_0;
    assert(e.len() == 6);
    assert(s[pos + 0] == e[0]);
    assert(s[pos + 1] == e[1]);
    assert(s[pos + 2] == e[2]);
    assert(s[pos + 3] == e[3]);
    assert(s[pos + 4] == e[4]);
    assert(s[pos + 5] == e[5]);
}

/// What follows the constant pool is read back where it was written.
proof fn lemma_body_round_trip(
    c: ClassfileView,
    s: Seq<u8>,
    p: int,
    e2: Seq<u8>,
    e3: Seq<u8>,
    e4: Seq<u8>,
    e5: Seq<u8>,
    e6: Seq<u8>,
)
    requires
        enc_class_info(c) == Ok::<Seq<u8>, Flaw>(e2),
        enc_counted(c.interfaces) == Ok::<Seq<u8>, Flaw>(e3),
        enc_members(c.constant_pool, c.fields) == Ok::<Seq<u8>, Flaw>(e4),
        enc_members(c.constant_pool, c.methods) == Ok::<Seq<u8>, Flaw>(e5),
        enc_attrs(c.constant_pool, c.attributes) == Ok::<Seq<u8>, Flaw>(e6),
        occurs(s, p, e2 + (e3 + (e4 + (e5 + e6)))),
        p + (e2 + (e3 + (e4 + (e5 + e6)))).len() == s.len(),
    ensures
        dec_body(c.version, c.constant_pool, s, p) == Ok::<ClassfileView, DecodeError>(c),
{
    reveal(dec_body);
    let end = s.len() as int;
    let pool = c.constant_pool;
    lemma_occurs_split(s, p, e2, e3 + (e4 + (e5 + e6)));
    lemma_class_info_round_trip(c, s, p);
    let at_interfaces = p + 6;
    lemma_occurs_split(s, at_interfaces, e3, e4 + (e5 + e6));
    lemma_counted_round_trip(c.interfaces, s, at_interfaces, end);
    let at_fields = at_interfaces + e3.len();
    lemma_occurs_split(s, at_fields, e4, e5 + e6);
    lemma_members_round_trip(pool, c.fields, s, at_fields, end);
    let at_methods = at_fields + e4.len();
    lemma_occurs_split(s, at_methods, e5, e6);
    lemma_members_round_trip(pool, c.methods, s, at_methods, end);
    let at_attributes = at_methods + e5.len();
    lemma_attrs_round_trip(pool, c.attributes, s, at_attributes, end);
    assert(dec_counted::<ConstantPoolIndex>(s, at_interfaces, end) == Ok::<(Seq<ConstantPoolIndex>, int), Fault>(
        (c.interfaces, at_fields),
    ));
    assert(dec_members(pool, s, at_fields, end) == Ok::<(Seq<MemberView>, int), Fault>((c.fields, at_methods)));
    assert(dec_members(pool, s, at_methods, end) == Ok::<(Seq<MemberView>, int), Fault>((c.methods, at_attributes)));
    assert(dec_attrs(pool, s, at_attributes, end) == Ok::<(Seq<AttributeView>, int), Fault>((c.attributes, end)));
}

/// A class file that was encoded is decoded from its bytes as it was:
/// whatever `encode` accepts, `decode` gives back.
pub proof fn lemma_encode_then_decode(c: ClassfileView)
    requires
        enc_classfile(c) is Ok,
    ensures
        dec_classfile(enc_classfile(c)->Ok_0) == Ok::<ClassfileView, DecodeError>(c),
{
    let s = enc_classfile(c)->Ok_0;
    let header = enc_header(c.version);
    lemma_assemble_parts(
        header,
        enc_pool(c.constant_pool),
        enc_class_info(c),
        enc_counted(c.interfaces),
        enc_members(c.constant_pool, c.fields),
        enc_members(c.constant_pool, c.methods),
        enc_attrs(c.constant_pool, c.attributes),
    );
    let e1 = enc_pool(c.constant_pool)->Ok_0;
    let e2 = enc_class_info(c)->Ok_0;
    let e3 = enc_counted(c.interfaces)->Ok_0;
    let e4 = enc_members(c.constant_pool, c.fields)->Ok_0;
    let e5 = enc_members(c.constant_pool, c.methods)->Ok_0;
    let e6 = enc_attrs(c.constant_pool, c.attributes)->Ok_0;
    let rest = e2 + (e3 + (e4 + (e5 + e6)));
    assert(s == header + (e1 + rest));
    assert(header.len() == 8);
    lemma_occurs_self(s);
    lemma_occurs_split(s, 0, header, e1 + rest);
    lemma_header_round_trip(c.version, s);
    lemma_occurs_split(s, 8, e1, rest);
    lemma_pool_round_trip(c.constant_pool, s, 8, s.len() as int);
    lemma_body_round_trip(c, s, 8 + e1.len() as int, e2, e3, e4, e5, e6);
}

/// What was read after the constant pool has an encoding, as long as the
/// bytes that were read.
#[verifier::rlimit(30)]
proof fn lemma_body_encodable(version: ClassfileVersion, pool: Seq<ConstantView>, s: Seq<u8>, p: int)
    requires
        0 <= p <= s.len(),
        dec_body(version, pool, s, p) is Ok,
    ensures
        ({
            let c = dec_body(version, pool, s, p)->Ok_0;
            &&& c.version == version
            &&& c.constant_pool == pool
            &&& enc_class_info(c) is Ok
            &&& enc_counted(c.interfaces) is Ok
            &&& enc_members(pool, c.fields) is Ok
            &&& enc_members(pool, c.methods) is Ok
            &&& enc_attrs(pool, c.attributes) is Ok
            &&& enc_class_info(c)->Ok_0.len() + enc_counted(c.interfaces)->Ok_0.len() + enc_members(
                pool,
                c.fields,
            )->Ok_0.len() + enc_members(pool, c.methods)->Ok_0.len() + enc_attrs(
                pool,
                c.attributes,
            )->Ok_0.len() == s.len() - p
        }),
{
    reveal(dec_body);
    let end = s.len() as int;
    let c = dec_body(version, pool, s, p)->Ok_0;
    let (interfaces, at_fields) = dec_counted::<ConstantPoolIndex>(s, p + 6, end)->Ok_0;
    lemma_counted_encodable::<ConstantPoolIndex>(s, p + 6, end);
    let (fields, at_methods) = dec_members(pool, s, at_fields, end)->Ok_0;
    lemma_members_encodable(pool, s, at_fields, end);
    let (methods, at_attributes) = dec_members(pool, s, at_methods, end)->Ok_0;
    lemma_members_encodable(pool, s, at_methods, end);
    let (attributes, stop) = dec_attrs(pool, s, at_attributes, end)->Ok_0;
    lemma_attrs_encodable(pool, s, at_attributes, end);
    assert(stop == end);
    assert(c.interfaces == interfaces && c.fields == fields && c.methods == methods && c.attributes
        == attributes);
    assert(enc_class_info(c) is Ok && enc_class_info(c)->Ok_0.len() == 6);
    assert(enc_counted(interfaces)->Ok_0.len() == at_fields - (p + 6));
    assert(enc_members(pool, fields)->Ok_0.len() == at_methods - at_fields);
    assert(enc_members(pool, methods)->Ok_0.len() == at_attributes - at_methods);
    assert(enc_attrs(pool, attributes)->Ok_0.len() == stop - at_attributes);
}

/// A class file that was decoded has an encoding, as long as the bytes it
/// was decoded from.
pub proof fn lemma_decoded_is_encodable(bytes: Seq<u8>)
    requires
        dec_classfile(bytes) is Ok,
    ensures
        enc_classfile(dec_classfile(bytes)->Ok_0) matches Ok(e) && e.len() == bytes.len(),
{
    let c = dec_classfile(bytes)->Ok_0;
    let end = bytes.len() as int;
    let version = ClassfileVersion {
        major_version: word16(bytes, 6),
        minor_version: word16(bytes, 4),
    };
    let (pool, p) = dec_pool(bytes, 8, end)->Ok_0;
    lemma_pool_encodable(bytes, 8, end);
    lemma_body_encodable(version, pool, bytes, p);
    assert(enc_header(version).len() == 8);
    lemma_assemble_parts(
        enc_header(c.version),
        enc_pool(c.constant_pool),
        enc_class_info(c),
        enc_counted(c.interfaces),
        enc_members(c.constant_pool, c.fields),
        enc_members(c.constant_pool, c.methods),
        enc_attrs(c.constant_pool, c.attributes),
    );
}

/// Decoding, encoding and decoding again gives what the first decoding
/// gave: the bytes that `encode` makes of a decoded class file decode to a
/// class file equal to it.
pub proof fn lemma_decode_encode_decode(bytes: Seq<u8>)
    requires
        dec_classfile(bytes) is Ok,
    ensures
        enc_classfile(dec_classfile(bytes)->Ok_0) is Ok,
        dec_classfile(enc_classfile(dec_classfile(bytes)->Ok_0)->Ok_0) == dec_classfile(bytes),
{
    lemma_decoded_is_encodable(bytes);
    lemma_encode_then_decode(dec_classfile(bytes)->Ok_0);
}

/// Decodes a class file and encodes it again. The bytes that come out are
/// as many as went in and decode to the same class file; bytes that hold
/// no class file give the error of `decode`.
pub fn reencode(bytes: &[u8]) -> (r: Result<Vec<u8>, DecodeError>)
    ensures
        match r {
            Ok(out) => dec_classfile(bytes@) is Ok && enc_classfile(dec_classfile(bytes@)->Ok_0)
                == Ok::<Seq<u8>, EncodeError>(out@) && dec_classfile(out@) == dec_classfile(bytes@)
                && out@.len() == bytes@.len(),
            Err(e) => dec_classfile(bytes@) == Err::<ClassfileView, DecodeError>(e),
        },
{
    let class = decode(bytes)?;
    proof {
        lemma_decoded_is_encodable(bytes@);
        lemma_encode_then_decode(class@);
    }
    let mut out: Vec<u8> = Vec::new();
    let written = encode(&class, &mut out);
    assert(written is Ok);
    assert(Seq::<u8>::empty() + enc_classfile(class@)->Ok_0 =~= enc_classfile(class@)->Ok_0);
    Ok(out)
}

/// Bytes that were encoded are encoded again as they are: decoding and
/// encoding changes nothing the second time.
pub proof fn lemma_reencoding_is_idempotent(bytes: Seq<u8>)
    requires
        dec_classfile(bytes) is Ok,
    ensures
        ({
            let once = enc_classfile(dec_classfile(bytes)->Ok_0);
            once is Ok && dec_classfile(once->Ok_0) is Ok && enc_classfile(dec_classfile(once->Ok_0)->Ok_0)
                == once
        }),
{
    lemma_decode_encode_decode(bytes);
}

/// Bytes that the encoder wrote are kept: decoding them and encoding what
/// was decoded gives the same bytes.
pub proof fn lemma_written_bytes_are_kept(c: ClassfileView)
    requires
        enc_classfile(c) is Ok,
    ensures
        dec_classfile(enc_classfile(c)->Ok_0) is Ok,
        enc_classfile(dec_classfile(enc_classfile(c)->Ok_0)->Ok_0) == enc_classfile(c),
{
    lemma_encode_then_decode(c);
}

/// Two class files with the same bytes are the same class file.
pub proof fn lemma_encoding_is_unambiguous(c: ClassfileView, d: ClassfileView)
    requires
        enc_classfile(c) is Ok,
        enc_classfile(c) == enc_classfile(d),
    ensures
        c == d,
{
    lemma_encode_then_decode(c);
    lemma_encode_then_decode(d);
}

/// The number of constants of `pool` from position `i` on that are no
/// placeholders.
pub open spec fn entries_from(pool: Seq<ConstantView>, i: int) -> int
    decreases pool.len() - i,
{
    if i < 0 || i >= pool.len() {
        0
    } else if pool[i] is Placeholder {
        entries_from(pool, i + 1)
    } else {
        1 + entries_from(pool, i + 1)
    }
}

/// The number of `Long` and `Double` constants of `pool` from position
/// `i` on.
pub open spec fn wide_from(pool: Seq<ConstantView>, i: int) -> int
    decreases pool.len() - i,
{
    if i < 0 || i >= pool.len() {
        0
    } else if pool[i].is_wide() {
        1 + wide_from(pool, i + 1)
    } else {
        wide_from(pool, i + 1)
    }
}

/// Where the constants from `i` on have an encoding, the positions they
/// take are one for each constant and one more for each eight-byte one.
proof fn lemma_slots_from(pool: Seq<ConstantView>, i: int)
    requires
        0 <= i <= pool.len(),
        enc_constants(pool, i) is Ok,
    ensures
        pool.len() - i == entries_from(pool, i) + wide_from(pool, i),
    decreases pool.len() - i,
{
    reveal(enc_constant);
    if i < pool.len() {
        if pool[i].is_wide() {
            lemma_slots_from(pool, i + 2);
            assert(entries_from(pool, i + 1) == entries_from(pool, i + 2));
            assert(wide_from(pool, i + 1) == wide_from(pool, i + 2));
        } else {
            lemma_slots_from(pool, i + 1);
        }
    }
}

/// The count that is written for a pool of `n` constants, `k` of them
/// `Long` or `Double`, is `n + k + 1`.
pub proof fn lemma_pool_count(pool: Seq<ConstantView>)
    requires
        enc_pool(pool) is Ok,
    ensures
        ({
            let n = entries_from(pool, 0);
            let k = wide_from(pool, 0);
            let written = enc_pool(pool)->Ok_0;
            &&& pool.len() == n + k
            &&& written.len() >= 2
            &&& word16(written, 0) == n + k + 1
        }),
{
    lemma_slots_from(pool, 0);
    let written = enc_pool(pool)->Ok_0;
    let head = be16((pool.len() + 1) as u16);
    let body = enc_constants(pool, 0)->Ok_0;
    assert(written == head + body);
    assert(written[0] == head[0]);
    assert(written[1] == head[1]);
}

} // verus!
