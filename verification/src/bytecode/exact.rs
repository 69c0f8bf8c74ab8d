//! When the bytes of a class file are kept to the byte.
//!
//! The decoder reads three things more freely than the encoder writes
//! them: the kind of a method handle, of which it reads every number that
//! is not defined as unknown; the padding of a switch, which it skips
//! whatever it holds; and the name of an attribute, which it takes from
//! any slot that holds it. Bytes are tidy where none of this freedom was
//! used, and tidy bytes come back from decoding and encoding as they were.
use vstd::prelude::*;
use crate::bytecode::attr::AttrKind;
use crate::bytecode::attr::dec_attr;
use crate::bytecode::attr::dec_attr_list;
use crate::bytecode::attr::dec_attrs;
use crate::bytecode::attr::dec_payload;
use crate::bytecode::attr::dec_simple;
use crate::bytecode::attr::enc_attr;
use crate::bytecode::attr::enc_attr_list;
use crate::bytecode::attr::enc_attrs;
use crate::bytecode::attr::enc_code_block;
use crate::bytecode::attr::enc_payload;
use crate::bytecode::attr::enc_simple;
use crate::bytecode::attr::find_name;
use crate::bytecode::attr::kind_at;
use crate::bytecode::attr::lemma_attr_encodable;
use crate::bytecode::attr::lemma_attr_list_encodable;
use crate::bytecode::attr::lemma_attrs_encodable;
use crate::bytecode::attr::lemma_enc_attr_list_shift;
use crate::bytecode::attr::lemma_payload_encodable;
use crate::bytecode::attr::lemma_simple_encodable;
use crate::bytecode::classfile::AttributeView;
use crate::bytecode::classfile::BootstrapMethodView;
use crate::bytecode::classfile::ClassfileVersion;
use crate::bytecode::classfile::ConstantPoolIndex;
use crate::bytecode::classfile::ConstantView;
use crate::bytecode::classfile::ExceptionHandler;
use crate::bytecode::classfile::InnerClass;
use crate::bytecode::classfile::LineNumberTable;
use crate::bytecode::classfile::LocalVariableTable;
use crate::bytecode::classfile::LocalVariableTableType;
use crate::bytecode::classfile::MemberView;
use crate::bytecode::classfile::MethodParameter;
use crate::bytecode::classfile::ReferenceKind;
use crate::bytecode::codec::EncodeError;
use crate::bytecode::codec::dec_body;
use crate::bytecode::codec::dec_classfile;
use crate::bytecode::codec::enc_class_info;
use crate::bytecode::codec::enc_classfile;
use crate::bytecode::codec::enc_header;
use crate::bytecode::codec::has_magic;
use crate::bytecode::codec::lemma_assemble_parts;
use crate::bytecode::insn::Shape;
use crate::bytecode::insn::dec_code;
use crate::bytecode::insn::dec_insn;
use crate::bytecode::insn::enc_code;
use crate::bytecode::insn::enc_insn;
use crate::bytecode::insn::lemma_code_encodable;
use crate::bytecode::insn::lemma_insn_encodable;
use crate::bytecode::insn::lemma_padding;
use crate::bytecode::insn::padding;
use crate::bytecode::insn::shape_of;
use crate::bytecode::insn::zeros;
use crate::bytecode::member::dec_member;
use crate::bytecode::member::dec_member_list;
use crate::bytecode::member::dec_members;
use crate::bytecode::member::enc_member;
use crate::bytecode::member::enc_member_list;
use crate::bytecode::member::enc_members;
use crate::bytecode::member::lemma_member_encodable;
use crate::bytecode::member::lemma_members_encodable;
use crate::bytecode::pool::dec_constant;
use crate::bytecode::pool::dec_constants;
use crate::bytecode::pool::dec_pool;
use crate::bytecode::pool::enc_constant;
use crate::bytecode::pool::enc_constants;
use crate::bytecode::pool::enc_pool;
use crate::bytecode::pool::lemma_constant_encodable;
use crate::bytecode::pool::lemma_constants_encodable;
use crate::bytecode::pool::lemma_enc_constants_shift;
use crate::bytecode::pool::lemma_pool_encodable;
use crate::bytecode::record::dec_all;
use crate::bytecode::record::dec_counted;
use crate::bytecode::record::enc_all;
use crate::bytecode::record::enc_counted;
use crate::bytecode::record::lemma_all_encodable;
use crate::bytecode::record::lemma_all_exact;
use crate::bytecode::record::lemma_counted8_exact;
use crate::bytecode::record::lemma_counted_encodable;
use crate::bytecode::record::lemma_counted_exact;
use crate::bytecode::wire::Flaw;
use crate::bytecode::wire::be16;
use crate::bytecode::wire::be32;
use crate::bytecode::wire::be64;
use crate::bytecode::wire::in_region;
use crate::bytecode::wire::lemma_bytes_stand;
use crate::bytecode::wire::lemma_occurs_join;
use crate::bytecode::wire::lemma_occurs_self;
use crate::bytecode::wire::lemma_u16_stands;
use crate::bytecode::wire::lemma_u32_stands;
use crate::bytecode::wire::lemma_u64_stands;
use crate::bytecode::wire::lemma_u8_stands;
use crate::bytecode::wire::occurs;
use crate::bytecode::wire::take_u16;
use crate::bytecode::wire::then;
use crate::bytecode::wire::word16;
use crate::bytecode::wire::word32;
use crate::bytecode::wire::word64;

verus! {

broadcast use crate::bytecode::wire::group_wire_lengths;

/// The constant is no method handle of an unknown kind.
pub open spec fn tidy_constant(c: ConstantView) -> bool {
    c matches ConstantView::MethodHandle { reference_kind, .. } ==> reference_kind
        != ReferenceKind::Unknown
}

/// No constant of the pool is a method handle of an unknown kind.
pub open spec fn tidy_pool(pool: Seq<ConstantView>) -> bool {
    forall|i: int| 0 <= i < pool.len() ==> tidy_constant(#[trigger] pool[i])
}

/// The bytes that a tidy constant was read from are the bytes of the
/// constant.
pub proof fn lemma_constant_exact(s: Seq<u8>, pos: int, end: int)
    requires
        in_region(s, pos, end),
        dec_constant(s, pos, end) is Ok,
        tidy_constant(dec_constant(s, pos, end)->Ok_0.0),
    ensures
        ({
            let (c, p) = dec_constant(s, pos, end)->Ok_0;
            enc_constant(c) matches Ok(e) && occurs(s, pos, e)
        }),
{
    reveal(enc_constant);
    reveal(dec_constant);
    lemma_constant_encodable(s, pos, end);
    let tag = s[pos];
    let (c, z) = dec_constant(s, pos, end)->Ok_0;
    lemma_u8_stands(s, pos);
    if tag == 1 {
        let n = word16(s, pos + 1);
        lemma_u16_stands(s, pos + 1);
        lemma_bytes_stand(s, pos + 3, n as int);
        lemma_occurs_join(s, pos, seq![1u8], be16(n));
        lemma_occurs_join(s, pos, seq![1u8] + be16(n), s.subrange(pos + 3, pos + 3 + n));
    } else if tag == 3 || tag == 4 {
        lemma_u32_stands(s, pos + 1);
        lemma_occurs_join(s, pos, seq![tag], be32(word32(s, pos + 1)));
    } else if tag == 5 || tag == 6 {
        lemma_u64_stands(s, pos + 1);
        lemma_occurs_join(s, pos, seq![tag], be64(word64(s, pos + 1)));
    } else if tag == 7 || tag == 8 || tag == 16 {
        lemma_u16_stands(s, pos + 1);
        lemma_occurs_join(s, pos, seq![tag], be16(word16(s, pos + 1)));
    } else if (9 <= tag <= 12) || tag == 18 {
        lemma_u16_stands(s, pos + 1);
        lemma_u16_stands(s, pos + 3);
        let a = be16(word16(s, pos + 1));
        let b = be16(word16(s, pos + 3));
        lemma_occurs_join(s, pos + 1, a, b);
        lemma_occurs_join(s, pos, seq![tag], a + b);
    } else if tag == 15 {
        let k = s[pos + 1];
        lemma_u16_stands(s, pos + 2);
        let head = seq![15u8, k];
        assert(ReferenceKind::of_code(k).code() == k);
        assert(occurs(s, pos, head)) by {
            assert forall|i: int| 0 <= i < head.len() implies s[pos + i] == #[trigger] head[i] by {
                if i == 0 {
                } else {
                    assert(i == 1);
                }
            }
        }
        lemma_occurs_join(s, pos, head, be16(word16(s, pos + 2)));
    }
}

/// The bytes that the constants of a tidy pool were read from are the
/// bytes of the constants.
pub proof fn lemma_constants_exact(s: Seq<u8>, pos: int, end: int, slots: int)
    requires
        in_region(s, pos, end),
        0 <= slots,
        dec_constants(s, pos, end, slots) is Ok,
        tidy_pool(dec_constants(s, pos, end, slots)->Ok_0.0),
    ensures
        ({
            let (cs, p) = dec_constants(s, pos, end, slots)->Ok_0;
            enc_constants(cs, 0) matches Ok(e) && occurs(s, pos, e)
        }),
    decreases slots,
{
    lemma_constants_encodable(s, pos, end, slots);
    if slots > 0 {
        let (c, p) = dec_constant(s, pos, end)->Ok_0;
        lemma_constant_encodable(s, pos, end);
        let used: int = if c.is_wide() {
            2
        } else {
            1
        };
        let head = if c.is_wide() {
            seq![c, ConstantView::Placeholder]
        } else {
            seq![c]
        };
        let (rest, _) = dec_constants(s, p, end, slots - used)->Ok_0;
        let cs = head + rest;
        assert(cs[0] == c);
        assert forall|i: int| 0 <= i < rest.len() implies tidy_constant(#[trigger] rest[i]) by {
            assert(cs[head.len() + i] == rest[i]);
        }
        lemma_constant_exact(s, pos, end);
        lemma_constants_encodable(s, p, end, slots - used);
        lemma_constants_exact(s, p, end, slots - used);
        lemma_enc_constants_shift(head, rest, 0);
        if c.is_wide() {
            assert(cs[1] is Placeholder);
        }
        assert(enc_constants(cs, 0) == then(enc_constant(c), enc_constants(cs, used)));
        lemma_occurs_join(s, pos, enc_constant(c)->Ok_0, enc_constants(rest, 0)->Ok_0);
    }
}

/// The bytes that a tidy pool was read from are the bytes of the pool.
pub proof fn lemma_pool_exact(s: Seq<u8>, pos: int, end: int)
    requires
        in_region(s, pos, end),
        dec_pool(s, pos, end) is Ok,
        tidy_pool(dec_pool(s, pos, end)->Ok_0.0),
    ensures
        ({
            let (pool, p) = dec_pool(s, pos, end)->Ok_0;
            enc_pool(pool) matches Ok(e) && occurs(s, pos, e)
        }),
{
    let (count, p) = take_u16(s, pos, end)->Ok_0;
    lemma_pool_encodable(s, pos, end);
    lemma_constants_encodable(s, p, end, count - 1);
    lemma_constants_exact(s, p, end, count - 1);
    lemma_u16_stands(s, pos);
    let (pool, _) = dec_constants(s, p, end, count - 1)->Ok_0;
    lemma_occurs_join(s, pos, be16(count), enc_constants(pool, 0)->Ok_0);
}

/// The instruction at `pos` is no switch, or the padding of the switch is
/// zero.
pub open spec fn tidy_insn(s: Seq<u8>, pos: int, base: int) -> bool {
    shape_of(s[pos]) == Shape::Lookup ==> forall|k: int|
        0 <= k < padding(pos - base) ==> #[trigger] s[pos + 1 + k] == 0
}

/// The padding of every switch of the code array from `pos` to `end` is
/// zero.
pub open spec fn tidy_code(s: Seq<u8>, pos: int, end: int, base: int) -> bool
    decreases end - pos,
{
    if pos >= end {
        true
    } else {
        match dec_insn(s, pos, end, base) {
            Err(_) => true,
            Ok((_, p)) => tidy_insn(s, pos, base) && (pos < p <= end ==> tidy_code(s, p, end, base)),
        }
    }
}

/// The bytes that a tidy instruction was read from are the bytes of the
/// instruction.
pub proof fn lemma_insn_exact(s: Seq<u8>, pos: int, end: int, base: int)
    requires
        in_region(s, pos, end),
        0 <= base <= pos,
        dec_insn(s, pos, end, base) is Ok,
        tidy_insn(s, pos, base),
    ensures
        ({
            let (i, p) = dec_insn(s, pos, end, base)->Ok_0;
            enc_insn(i, pos - base) matches Ok(e) && occurs(s, pos, e)
        }),
{
    reveal(enc_insn);
    reveal(dec_insn);
    lemma_insn_encodable(s, pos, end, base);
    let op = s[pos];
    let (i, z) = dec_insn(s, pos, end, base)->Ok_0;
    let e = enc_insn(i, pos - base)->Ok_0;
    lemma_u8_stands(s, pos);
    match shape_of(op) {
        Shape::Plain => {},
        Shape::U8 => {
            assert(e[0] == s[pos]);
            assert(e[1] == s[pos + 1]);
            assert forall|k: int| 0 <= k < e.len() implies s[pos + k] == #[trigger] e[k] by {
                if k == 0 {
                } else {
                    assert(k == 1);
                }
            }
        },
        Shape::U16 => {
            lemma_u16_stands(s, pos + 1);
            lemma_occurs_join(s, pos, seq![op], be16(word16(s, pos + 1)));
        },
        Shape::U32 => {
            lemma_u32_stands(s, pos + 1);
            lemma_occurs_join(s, pos, seq![op], be32(word32(s, pos + 1)));
        },
        Shape::U8I8 => {
            assert(e[0] == s[pos]);
            assert(e[1] == s[pos + 1]);
            assert(e[2] == s[pos + 2]);
            assert forall|k: int| 0 <= k < e.len() implies s[pos + k] == #[trigger] e[k] by {
                if k == 0 {
                } else if k == 1 {
                } else {
                    assert(k == 2);
                }
            }
        },
        Shape::U16U8 => {
            lemma_u16_stands(s, pos + 1);
            lemma_u8_stands(s, pos + 3);
            lemma_occurs_join(s, pos, seq![op], be16(word16(s, pos + 1)));
            lemma_occurs_join(s, pos, seq![op] + be16(word16(s, pos + 1)), seq![s[pos + 3]]);
        },
        Shape::Lookup => {
            let pad = padding(pos - base);
            lemma_padding(pos - base);
            let q = pos + 1 + pad;
            let d = word32(s, q);
            let n = word32(s, q + 4);
            lemma_u32_stands(s, q);
            lemma_u32_stands(s, q + 4);
            lemma_all_encodable::<(i32, i32)>(s, q + 8, end, n as int);
            lemma_all_exact::<(i32, i32)>(s, q + 8, end, n as int);
            let (pairs, _) = dec_all::<(i32, i32)>(s, q + 8, end, n as int)->Ok_0;
            let body = enc_all(pairs)->Ok_0;
            assert(occurs(s, pos + 1, zeros(pad))) by {
                assert forall|k: int| 0 <= k < zeros(pad).len() implies s[pos + 1 + k]
                    == #[trigger] zeros(pad)[k] by {
                    assert(s[pos + 1 + k] == 0);
                }
            }
            let h1 = seq![op] + zeros(pad);
            lemma_occurs_join(s, pos, seq![op], zeros(pad));
            lemma_occurs_join(s, pos, h1, be32(d));
            lemma_occurs_join(s, pos, h1 + be32(d), be32(n));
            lemma_occurs_join(s, pos, h1 + be32(d) + be32(n), body);
        },
        Shape::Unsupported => {},
    }
}

/// The bytes that a tidy code array was read from are the bytes of its
/// instructions.
pub proof fn lemma_code_exact(s: Seq<u8>, pos: int, end: int, base: int)
    requires
        in_region(s, pos, end),
        0 <= base <= pos,
        dec_code(s, pos, end, base) is Ok,
        tidy_code(s, pos, end, base),
    ensures
        ({
            let (code, p) = dec_code(s, pos, end, base)->Ok_0;
            enc_code(code, pos - base) matches Ok(e) && occurs(s, pos, e)
        }),
    decreases end - pos,
{
    lemma_code_encodable(s, pos, end, base);
    if pos < end {
        let (i, p) = dec_insn(s, pos, end, base)->Ok_0;
        lemma_insn_encodable(s, pos, end, base);
        lemma_insn_exact(s, pos, end, base);
        lemma_code_encodable(s, p, end, base);
        lemma_code_exact(s, p, end, base);
        let (rest, _) = dec_code(s, p, end, base)->Ok_0;
        let code = seq![i] + rest;
        assert(code.skip(1) =~= rest);
        assert(code[0] == i);
        lemma_occurs_join(s, pos, enc_insn(i, pos - base)->Ok_0, enc_code(rest, p - base)->Ok_0);
    }
}

/// The attribute that starts at `pos` names the first slot that holds its
/// name, and what it holds is tidy.
pub open spec fn tidy_attr(pool: Seq<ConstantView>, s: Seq<u8>, pos: int, end: int) -> bool
    decreases end - pos, 2int,
{
    if pos + 6 <= end {
        let name = word16(s, pos);
        let start = pos + 6;
        let stop = start + word32(s, pos + 2);
        if stop > end {
            true
        } else {
            match kind_at(pool, name as int) {
                None => true,
                Some(kind) => find_name(pool, kind, 0) == Some(name - 1) && (kind == AttrKind::Code
                    ==> tidy_code_payload(pool, s, start, stop)),
            }
        }
    } else {
        true
    }
}

/// The code array and the attributes of the `Code` payload that starts at
/// `pos` are tidy.
pub open spec fn tidy_code_payload(pool: Seq<ConstantView>, s: Seq<u8>, pos: int, end: int) -> bool
    decreases end - pos, 1int,
{
    if pos + 8 <= end {
        let code_end = pos + 8 + word32(s, pos + 4);
        if code_end > end {
            true
        } else {
            tidy_code(s, pos + 8, code_end, pos + 8) && match dec_counted::<ExceptionHandler>(
                s,
                code_end,
                end,
            ) {
                Err(_) => true,
                Ok((_, t)) => code_end <= t <= end ==> tidy_attrs(pool, s, t, end),
            }
        }
    } else {
        true
    }
}

/// The `n` attributes that start at `pos` are tidy.
pub open spec fn tidy_attr_list(pool: Seq<ConstantView>, s: Seq<u8>, pos: int, end: int, n: int) -> bool
    decreases end - pos, n + 3,
{
    if n <= 0 {
        true
    } else {
        tidy_attr(pool, s, pos, end) && match dec_attr(pool, s, pos, end) {
            Err(_) => true,
            Ok((_, p)) => pos < p <= end ==> tidy_attr_list(pool, s, p, end, n - 1),
        }
    }
}

/// The counted list of attributes that starts at `pos` is tidy.
pub open spec fn tidy_attrs(pool: Seq<ConstantView>, s: Seq<u8>, pos: int, end: int) -> bool
    decreases end - pos, 0int,
{
    if pos + 2 <= end {
        tidy_attr_list(pool, s, pos + 2, end, word16(s, pos) as int)
    } else {
        true
    }
}

/// The bytes that the payload of an attribute without attributes of its
/// own was read from are the bytes of the payload.
pub proof fn lemma_simple_exact(kind: AttrKind, s: Seq<u8>, pos: int, end: int)
    requires
        in_region(s, pos, end),
        kind != AttrKind::Code,
        dec_simple(kind, s, pos, end) is Ok,
    ensures
        ({
            let (a, p) = dec_simple(kind, s, pos, end)->Ok_0;
            enc_simple(a) matches Ok(e) && occurs(s, pos, e)
        }),
{
    lemma_simple_encodable(kind, s, pos, end);
    reveal(enc_simple);
    reveal(dec_simple);
    match kind {
        AttrKind::ConstantValue | AttrKind::Signature | AttrKind::SourceFile => {
            lemma_u16_stands(s, pos);
        },
        AttrKind::Code => {},
        AttrKind::Exceptions => {
            lemma_counted_exact::<ConstantPoolIndex>(s, pos, end);
        },
        AttrKind::InnerClasses => {
            lemma_counted_exact::<InnerClass>(s, pos, end);
        },
        AttrKind::EnclosingMethod => {
            lemma_u16_stands(s, pos);
            lemma_u16_stands(s, pos + 2);
            lemma_occurs_join(s, pos, be16(word16(s, pos)), be16(word16(s, pos + 2)));
        },
        AttrKind::Synthetic | AttrKind::Deprecated => {},
        AttrKind::SourceDebugExtension => {
            lemma_bytes_stand(s, pos, end - pos);
        },
        AttrKind::LineNumberTable => {
            lemma_counted_exact::<LineNumberTable>(s, pos, end);
        },
        AttrKind::LocalVariableTable => {
            lemma_counted_exact::<LocalVariableTable>(s, pos, end);
        },
        AttrKind::LocalVariableTypeTable => {
            lemma_counted_exact::<LocalVariableTableType>(s, pos, end);
        },
        AttrKind::BootstrapMethods => {
            lemma_counted_exact::<BootstrapMethodView>(s, pos, end);
        },
        AttrKind::MethodParameters => {
            lemma_counted8_exact::<MethodParameter>(s, pos, end);
        },
    }
}

/// The bytes that a tidy `Code` payload was read from are the bytes of the
/// payload.
proof fn lemma_code_payload_exact(pool: Seq<ConstantView>, s: Seq<u8>, pos: int, end: int)
    requires
        in_region(s, pos, end),
        dec_payload(pool, AttrKind::Code, s, pos, end) is Ok,
        tidy_code_payload(pool, s, pos, end),
    ensures
        ({
            let (a, p) = dec_payload(pool, AttrKind::Code, s, pos, end)->Ok_0;
            enc_payload(pool, a) matches Ok(e) && occurs(s, pos, e)
        }),
    decreases end - pos, 0int,
{
    lemma_payload_encodable(pool, AttrKind::Code, s, pos, end);
    let (a, p) = dec_payload(pool, AttrKind::Code, s, pos, end)->Ok_0;
    let max_stack = word16(s, pos);
    let max_locals = word16(s, pos + 2);
    let code_length = word32(s, pos + 4);
    let code_end = pos + 8 + code_length;
    let (code, _) = dec_code(s, pos + 8, code_end, pos + 8)->Ok_0;
    lemma_code_encodable(s, pos + 8, code_end, pos + 8);
    lemma_code_exact(s, pos + 8, code_end, pos + 8);
    let c = enc_code(code, 0)->Ok_0;
    assert(c.len() == code_length);
    let (exception_table, t) = dec_counted::<ExceptionHandler>(s, code_end, end)->Ok_0;
    lemma_counted_encodable::<ExceptionHandler>(s, code_end, end);
    lemma_counted_exact::<ExceptionHandler>(s, code_end, end);
    let table = enc_counted(exception_table)->Ok_0;
    let (attributes, _) = dec_attrs(pool, s, t, end)->Ok_0;
    lemma_attrs_encodable(pool, s, t, end);
    lemma_attrs_exact(pool, s, t, end);
    let nested = enc_attrs(pool, attributes)->Ok_0;
    assert(a == AttributeView::Code { max_stack, max_locals, code, exception_table, attributes });
    let head = be16(max_stack) + be16(max_locals);
    let block = be32(c.len() as u32) + c;
    assert(enc_code_block(code) == Ok::<Seq<u8>, Flaw>(block));
    assert(enc_payload(pool, a) == Ok::<Seq<u8>, Flaw>(head + (block + (table + nested))));
    lemma_u16_stands(s, pos);
    lemma_u16_stands(s, pos + 2);
    lemma_u32_stands(s, pos + 4);
    lemma_occurs_join(s, pos, be16(max_stack), be16(max_locals));
    lemma_occurs_join(s, pos + 4, be32(code_length), c);
    lemma_occurs_join(s, code_end, table, nested);
    lemma_occurs_join(s, pos + 4, block, table + nested);
    lemma_occurs_join(s, pos, head, block + (table + nested));
}

/// The bytes that the tidy payload of an attribute was read from are the
/// bytes of the payload.
proof fn lemma_payload_exact(pool: Seq<ConstantView>, kind: AttrKind, s: Seq<u8>, pos: int, end: int)
    requires
        in_region(s, pos, end),
        dec_payload(pool, kind, s, pos, end) is Ok,
        kind == AttrKind::Code ==> tidy_code_payload(pool, s, pos, end),
    ensures
        ({
            let (a, p) = dec_payload(pool, kind, s, pos, end)->Ok_0;
            enc_payload(pool, a) matches Ok(e) && occurs(s, pos, e)
        }),
    decreases end - pos, 1int,
{
    lemma_payload_encodable(pool, kind, s, pos, end);
    if kind == AttrKind::Code {
        lemma_code_payload_exact(pool, s, pos, end);
    } else {
        lemma_simple_encodable(kind, s, pos, end);
        lemma_simple_exact(kind, s, pos, end);
    }
}

/// The bytes that a tidy attribute was read from are the bytes of the
/// attribute.
pub proof fn lemma_attr_exact(pool: Seq<ConstantView>, s: Seq<u8>, pos: int, end: int)
    requires
        in_region(s, pos, end),
        dec_attr(pool, s, pos, end) is Ok,
        tidy_attr(pool, s, pos, end),
    ensures
        ({
            let (a, p) = dec_attr(pool, s, pos, end)->Ok_0;
            enc_attr(pool, a) matches Ok(e) && occurs(s, pos, e)
        }),
    decreases end - pos, 2int,
{
    lemma_attr_encodable(pool, s, pos, end);
    let name = word16(s, pos);
    let length = word32(s, pos + 2);
    let start = pos + 6;
    let stop = start + length;
    lemma_u16_stands(s, pos);
    lemma_u32_stands(s, pos + 2);
    lemma_occurs_join(s, pos, be16(name), be32(length));
    let head = be16(name) + be32(length);
    match kind_at(pool, name as int) {
        None => {
            lemma_bytes_stand(s, start, length as int);
            lemma_occurs_join(s, pos, head, s.subrange(start, stop));
        },
        Some(kind) => {
            let (a, p) = dec_payload(pool, kind, s, start, stop)->Ok_0;
            lemma_payload_encodable(pool, kind, s, start, stop);
            lemma_payload_exact(pool, kind, s, start, stop);
            let payload = enc_payload(pool, a)->Ok_0;
            assert(payload.len() == length);
            assert(occurs(s, start, payload));
            lemma_occurs_join(s, pos, head, payload);
        },
    }
}

/// The bytes that tidy attributes were read from are the bytes of the
/// attributes.
pub proof fn lemma_attr_list_exact(pool: Seq<ConstantView>, s: Seq<u8>, pos: int, end: int, n: int)
    requires
        in_region(s, pos, end),
        0 <= n,
        dec_attr_list(pool, s, pos, end, n) is Ok,
        tidy_attr_list(pool, s, pos, end, n),
    ensures
        ({
            let (attrs, p) = dec_attr_list(pool, s, pos, end, n)->Ok_0;
            enc_attr_list(pool, attrs, 0) matches Ok(e) && occurs(s, pos, e)
        }),
    decreases end - pos, n + 3,
{
    lemma_attr_list_encodable(pool, s, pos, end, n);
    if n > 0 {
        let (a, p) = dec_attr(pool, s, pos, end)->Ok_0;
        lemma_attr_encodable(pool, s, pos, end);
        lemma_attr_exact(pool, s, pos, end);
        lemma_attr_list_encodable(pool, s, p, end, n - 1);
        lemma_attr_list_exact(pool, s, p, end, n - 1);
        let (rest, _) = dec_attr_list(pool, s, p, end, n - 1)->Ok_0;
        let attrs = seq![a] + rest;
        assert(attrs[0] == a);
        lemma_enc_attr_list_shift(pool, seq![a], rest, 0);
        lemma_occurs_join(s, pos, enc_attr(pool, a)->Ok_0, enc_attr_list(pool, rest, 0)->Ok_0);
    }
}

/// The bytes that a tidy counted list of attributes was read from are the
/// bytes of the list.
pub proof fn lemma_attrs_exact(pool: Seq<ConstantView>, s: Seq<u8>, pos: int, end: int)
    requires
        in_region(s, pos, end),
        dec_attrs(pool, s, pos, end) is Ok,
        tidy_attrs(pool, s, pos, end),
    ensures
        ({
            let (attrs, p) = dec_attrs(pool, s, pos, end)->Ok_0;
            enc_attrs(pool, attrs) matches Ok(e) && occurs(s, pos, e)
        }),
    decreases end - pos, 0int,
{
    let n = word16(s, pos);
    lemma_attrs_encodable(pool, s, pos, end);
    lemma_attr_list_encodable(pool, s, pos + 2, end, n as int);
    lemma_attr_list_exact(pool, s, pos + 2, end, n as int);
    lemma_u16_stands(s, pos);
    let (attrs, _) = dec_attr_list(pool, s, pos + 2, end, n as int)->Ok_0;
    lemma_occurs_join(s, pos, be16(n), enc_attr_list(pool, attrs, 0)->Ok_0);
}

/// The attributes of the member that starts at `pos` are tidy.
pub open spec fn tidy_member(pool: Seq<ConstantView>, s: Seq<u8>, pos: int, end: int) -> bool {
    pos + 6 <= end ==> tidy_attrs(pool, s, pos + 6, end)
}

/// The `n` members that start at `pos` are tidy.
pub open spec fn tidy_member_list(pool: Seq<ConstantView>, s: Seq<u8>, pos: int, end: int, n: int) -> bool
    decreases n,
{
    if n <= 0 {
        true
    } else {
        tidy_member(pool, s, pos, end) && match dec_member(pool, s, pos, end) {
            Err(_) => true,
            Ok((_, p)) => tidy_member_list(pool, s, p, end, n - 1),
        }
    }
}

/// The counted list of members that starts at `pos` is tidy.
pub open spec fn tidy_members(pool: Seq<ConstantView>, s: Seq<u8>, pos: int, end: int) -> bool {
    pos + 2 <= end ==> tidy_member_list(pool, s, pos + 2, end, word16(s, pos) as int)
}

/// The bytes that a tidy member was read from are the bytes of the member.
pub proof fn lemma_member_exact(pool: Seq<ConstantView>, s: Seq<u8>, pos: int, end: int)
    requires
        in_region(s, pos, end),
        dec_member(pool, s, pos, end) is Ok,
        tidy_member(pool, s, pos, end),
    ensures
        ({
            let (m, p) = dec_member(pool, s, pos, end)->Ok_0;
            enc_member(pool, m) matches Ok(e) && occurs(s, pos, e)
        }),
{
    lemma_member_encodable(pool, s, pos, end);
    lemma_attrs_encodable(pool, s, pos + 6, end);
    lemma_attrs_exact(pool, s, pos + 6, end);
    let (attributes, _) = dec_attrs(pool, s, pos + 6, end)->Ok_0;
    let flags = be16(word16(s, pos));
    let name = be16(word16(s, pos + 2));
    let descriptor = be16(word16(s, pos + 4));
    let nested = enc_attrs(pool, attributes)->Ok_0;
    lemma_u16_stands(s, pos);
    lemma_u16_stands(s, pos + 2);
    lemma_u16_stands(s, pos + 4);
    lemma_occurs_join(s, pos + 4, descriptor, nested);
    lemma_occurs_join(s, pos + 2, name, descriptor + nested);
    lemma_occurs_join(s, pos, flags, name + (descriptor + nested));
}

/// The bytes that tidy members were read from are the bytes of the
/// members.
proof fn lemma_member_list_exact(pool: Seq<ConstantView>, s: Seq<u8>, pos: int, end: int, n: int)
    requires
        in_region(s, pos, end),
        0 <= n,
        dec_member_list(pool, s, pos, end, n) is Ok,
        tidy_member_list(pool, s, pos, end, n),
    ensures
        ({
            let (items, p) = dec_member_list(pool, s, pos, end, n)->Ok_0;
            &&& items.len() == n
            &&& pos <= p <= end
            &&& enc_member_list(pool, items, 0) matches Ok(e) && e.len() == p - pos && occurs(s, pos, e)
        }),
    decreases n,
{
    if n > 0 {
        let (m, p) = dec_member(pool, s, pos, end)->Ok_0;
        lemma_member_encodable(pool, s, pos, end);
        lemma_member_exact(pool, s, pos, end);
        lemma_member_list_exact(pool, s, p, end, n - 1);
        let (rest, _) = dec_member_list(pool, s, p, end, n - 1)->Ok_0;
        let items = seq![m] + rest;
        assert(items[0] == m);
        lemma_member_list_shift(pool, seq![m], rest, 0);
        lemma_occurs_join(s, pos, enc_member(pool, m)->Ok_0, enc_member_list(pool, rest, 0)->Ok_0);
    } else {
        lemma_occurs_self(Seq::<u8>::empty());
    }
}

/// The members of `x + y` from the end of `x` on are those of `y`.
proof fn lemma_member_list_shift(
    pool: Seq<ConstantView>,
    x: Seq<MemberView>,
    y: Seq<MemberView>,
    i: int,
)
    requires
        0 <= i,
    ensures
        enc_member_list(pool, x + y, x.len() + i) == enc_member_list(pool, y, i),
    decreases y.len() - i,
{
    if i < y.len() {
        assert((x + y)[x.len() + i] == y[i]);
        lemma_member_list_shift(pool, x, y, i + 1);
    }
}

/// The bytes that a tidy counted list of members was read from are the
/// bytes of the list.
pub proof fn lemma_members_exact(pool: Seq<ConstantView>, s: Seq<u8>, pos: int, end: int)
    requires
        in_region(s, pos, end),
        dec_members(pool, s, pos, end) is Ok,
        tidy_members(pool, s, pos, end),
    ensures
        ({
            let (items, p) = dec_members(pool, s, pos, end)->Ok_0;
            enc_members(pool, items) matches Ok(e) && occurs(s, pos, e)
        }),
{
    let n = word16(s, pos);
    lemma_members_encodable(pool, s, pos, end);
    lemma_member_list_exact(pool, s, pos + 2, end, n as int);
    lemma_u16_stands(s, pos);
    let (items, _) = dec_member_list(pool, s, pos + 2, end, n as int)->Ok_0;
    lemma_occurs_join(s, pos, be16(n), enc_member_list(pool, items, 0)->Ok_0);
}

/// The four lists that end a class file, read from `at` on: the
/// interfaces, the fields, the methods and the attributes of the class,
/// where all of them are there and the last one ends where the bytes end.
#[verifier::opaque]
pub open spec fn dec_lists(pool: Seq<ConstantView>, s: Seq<u8>, at: int) -> Option<
    (Seq<ConstantPoolIndex>, Seq<MemberView>, Seq<MemberView>, Seq<AttributeView>),
> {
    let end = s.len() as int;
    match dec_counted::<ConstantPoolIndex>(s, at, end) {
        Err(_) => None,
        Ok((interfaces, at_fields)) => match dec_members(pool, s, at_fields, end) {
            Err(_) => None,
            Ok((fields, at_methods)) => match dec_members(pool, s, at_methods, end) {
                Err(_) => None,
                Ok((methods, at_attributes)) => match dec_attrs(pool, s, at_attributes, end) {
                    Err(_) => None,
                    Ok((attributes, stop)) => if stop == end {
                        Some((interfaces, fields, methods, attributes))
                    } else {
                        None
                    },
                },
            },
        },
    }
}

/// The fields, the methods and the attributes of the class, read from the
/// interfaces at `at` on, are tidy.
#[verifier::opaque]
pub open spec fn tidy_lists(pool: Seq<ConstantView>, s: Seq<u8>, at: int) -> bool {
    let end = s.len() as int;
    match dec_counted::<ConstantPoolIndex>(s, at, end) {
        Err(_) => true,
        Ok((_, at_fields)) => tidy_members(pool, s, at_fields, end) && match dec_members(
            pool,
            s,
            at_fields,
            end,
        ) {
            Err(_) => true,
            Ok((_, at_methods)) => tidy_members(pool, s, at_methods, end) && match dec_members(
                pool,
                s,
                at_methods,
                end,
            ) {
                Err(_) => true,
                Ok((_, at_attributes)) => tidy_attrs(pool, s, at_attributes, end),
            },
        },
    }
}

/// What follows the constant pool, which ends at `p`, is tidy.
pub open spec fn tidy_body(pool: Seq<ConstantView>, s: Seq<u8>, p: int) -> bool {
    p + 6 <= s.len() ==> tidy_lists(pool, s, p + 6)
}

/// The bytes use none of the freedom that the decoder leaves: no method
/// handle of the pool is of an unknown kind, every attribute that is read
/// by its name names the first slot that holds the name, and the padding
/// of every switch is zero.
pub open spec fn tidy(bytes: Seq<u8>) -> bool {
    match dec_pool(bytes, 8, bytes.len() as int) {
        Err(_) => true,
        Ok((pool, p)) => tidy_pool(pool) && tidy_body(pool, bytes, p),
    }
}

/// The bytes that the four lists after the class information were read
/// from are the bytes of the lists, one after the other.
proof fn lemma_lists_exact(pool: Seq<ConstantView>, s: Seq<u8>, at: int)
    requires
        0 <= at <= s.len(),
        dec_lists(pool, s, at) is Some,
        tidy_lists(pool, s, at),
    ensures
        ({
            let (interfaces, fields, methods, attributes) = dec_lists(pool, s, at)->Some_0;
            &&& enc_counted(interfaces) is Ok
            &&& enc_members(pool, fields) is Ok
            &&& enc_members(pool, methods) is Ok
            &&& enc_attrs(pool, attributes) is Ok
            &&& ({
                let e = enc_counted(interfaces)->Ok_0 + (enc_members(pool, fields)->Ok_0 + (enc_members(
                    pool,
                    methods,
                )->Ok_0 + enc_attrs(pool, attributes)->Ok_0));
                e.len() == s.len() - at && occurs(s, at, e)
            })
        }),
{
    reveal(dec_lists);
    reveal(tidy_lists);
    let end = s.len() as int;
    let (interfaces, at_fields) = dec_counted::<ConstantPoolIndex>(s, at, end)->Ok_0;
    lemma_counted_encodable::<ConstantPoolIndex>(s, at, end);
    lemma_counted_exact::<ConstantPoolIndex>(s, at, end);
    let (fields, at_methods) = dec_members(pool, s, at_fields, end)->Ok_0;
    lemma_members_encodable(pool, s, at_fields, end);
    lemma_members_exact(pool, s, at_fields, end);
    let (methods, at_attributes) = dec_members(pool, s, at_methods, end)->Ok_0;
    lemma_members_encodable(pool, s, at_methods, end);
    lemma_members_exact(pool, s, at_methods, end);
    let (attributes, stop) = dec_attrs(pool, s, at_attributes, end)->Ok_0;
    lemma_attrs_encodable(pool, s, at_attributes, end);
    lemma_attrs_exact(pool, s, at_attributes, end);
    let e3 = enc_counted(interfaces)->Ok_0;
    let e4 = enc_members(pool, fields)->Ok_0;
    let e5 = enc_members(pool, methods)->Ok_0;
    let e6 = enc_attrs(pool, attributes)->Ok_0;
    assert(e3.len() == at_fields - at);
    assert(e4.len() == at_methods - at_fields);
    assert(e5.len() == at_attributes - at_methods);
    assert(e6.len() == end - at_attributes);
    lemma_occurs_join(s, at_methods, e5, e6);
    lemma_occurs_join(s, at_fields, e4, e5 + e6);
    lemma_occurs_join(s, at, e3, e4 + (e5 + e6));
}

/// What the parts of a decoded body are, and where they were read.
proof fn lemma_body_parts(version: ClassfileVersion, pool: Seq<ConstantView>, s: Seq<u8>, p: int)
    requires
        0 <= p <= s.len(),
        dec_body(version, pool, s, p) is Ok,
    ensures
        ({
            let c = dec_body(version, pool, s, p)->Ok_0;
            &&& p + 6 <= s.len()
            &&& c.version == version
            &&& c.constant_pool == pool
            &&& c.access_flags.flags == word16(s, p)
            &&& c.this_class.idx == word16(s, p + 2)
            &&& c.super_class.idx == word16(s, p + 4)
            &&& dec_lists(pool, s, p + 6) == Some((c.interfaces, c.fields, c.methods, c.attributes))
        }),
{
    reveal(dec_body);
    reveal(dec_lists);
}

/// The bytes that what follows a pool was read from are its bytes.
proof fn lemma_body_exact(version: ClassfileVersion, pool: Seq<ConstantView>, s: Seq<u8>, p: int)
    requires
        0 <= p <= s.len(),
        dec_body(version, pool, s, p) is Ok,
        tidy_body(pool, s, p),
    ensures
        ({
            let c = dec_body(version, pool, s, p)->Ok_0;
            let e2 = enc_class_info(c)->Ok_0;
            let e3 = enc_counted(c.interfaces)->Ok_0;
            let e4 = enc_members(pool, c.fields)->Ok_0;
            let e5 = enc_members(pool, c.methods)->Ok_0;
            let e6 = enc_attrs(pool, c.attributes)->Ok_0;
            &&& c.version == version
            &&& c.constant_pool == pool
            &&& enc_class_info(c) is Ok
            &&& enc_counted(c.interfaces) is Ok
            &&& enc_members(pool, c.fields) is Ok
            &&& enc_members(pool, c.methods) is Ok
            &&& enc_attrs(pool, c.attributes) is Ok
            &&& (e2 + (e3 + (e4 + (e5 + e6)))).len() == s.len() - p
            &&& occurs(s, p, e2 + (e3 + (e4 + (e5 + e6))))
        }),
{
    let c = dec_body(version, pool, s, p)->Ok_0;
    lemma_body_parts(version, pool, s, p);
    lemma_lists_exact(pool, s, p + 6);
    let flags = be16(word16(s, p));
    let this_class = be16(word16(s, p + 2));
    let super_class = be16(word16(s, p + 4));
    lemma_u16_stands(s, p);
    lemma_u16_stands(s, p + 2);
    lemma_u16_stands(s, p + 4);
    lemma_occurs_join(s, p + 2, this_class, super_class);
    lemma_occurs_join(s, p, flags, this_class + super_class);
    let e2 = enc_class_info(c)->Ok_0;
    assert(e2 == flags + (this_class + super_class));
    let e3 = enc_counted(c.interfaces)->Ok_0;
    let e4 = enc_members(pool, c.fields)->Ok_0;
    let e5 = enc_members(pool, c.methods)->Ok_0;
    let e6 = enc_attrs(pool, c.attributes)->Ok_0;
    lemma_occurs_join(s, p, e2, e3 + (e4 + (e5 + e6)));
}

/// The header of bytes that hold a class file stands at their start.
proof fn lemma_header_stands(bytes: Seq<u8>)
    requires
        has_magic(bytes),
        bytes.len() >= 8,
    ensures
        occurs(
            bytes,
            0,
            enc_header(
                ClassfileVersion { major_version: word16(bytes, 6), minor_version: word16(bytes, 4) },
            ),
        ),
{
    let minor = be16(word16(bytes, 4));
    let major = be16(word16(bytes, 6));
    lemma_u16_stands(bytes, 4);
    lemma_u16_stands(bytes, 6);
    let magic = seq![0xCAu8, 0xFEu8, 0xBAu8, 0xBEu8];
    assert forall|i: int| 0 <= i < magic.len() implies bytes[0 + i] == #[trigger] magic[i] by {
        if i == 0 {
        } else if i == 1 {
        } else if i == 2 {
        } else {
            assert(i == 3);
        }
    }
    lemma_occurs_join(bytes, 0, magic, minor);
    lemma_occurs_join(bytes, 0, magic + minor, major);
}

/// Bytes of which `whole` stands at the start, and that are as long as
/// `whole`, are `whole`.
proof fn lemma_occurs_all(bytes: Seq<u8>, whole: Seq<u8>)
    requires
        occurs(bytes, 0, whole),
        whole.len() == bytes.len(),
    ensures
        whole == bytes,
{
    assert(whole =~= bytes) by {
        assert forall|i: int| 0 <= i < whole.len() implies whole[i] == bytes[i] by {
            assert(bytes[0 + i] == whole[i]);
        }
    }
}

/// Tidy bytes are kept to the byte: decoding them and encoding what was
/// decoded gives the same bytes.
#[verifier::rlimit(30)]
pub proof fn lemma_tidy_bytes_are_kept(bytes: Seq<u8>)
    requires
        dec_classfile(bytes) is Ok,
        tidy(bytes),
    ensures
        enc_classfile(dec_classfile(bytes)->Ok_0) == Ok::<Seq<u8>, EncodeError>(bytes),
{
    let c = dec_classfile(bytes)->Ok_0;
    let end = bytes.len() as int;
    let version = ClassfileVersion {
        major_version: word16(bytes, 6),
        minor_version: word16(bytes, 4),
    };
    let (pool, p) = dec_pool(bytes, 8, end)->Ok_0;
    lemma_pool_encodable(bytes, 8, end);
    lemma_pool_exact(bytes, 8, end);
    lemma_body_exact(version, pool, bytes, p);
    lemma_header_stands(bytes);
    let header = enc_header(version);
    let e1 = enc_pool(pool)->Ok_0;
    let e2 = enc_class_info(c)->Ok_0;
    let e3 = enc_counted(c.interfaces)->Ok_0;
    let e4 = enc_members(pool, c.fields)->Ok_0;
    let e5 = enc_members(pool, c.methods)->Ok_0;
    let e6 = enc_attrs(pool, c.attributes)->Ok_0;
    let rest = e2 + (e3 + (e4 + (e5 + e6)));
    lemma_assemble_parts(
        header,
        enc_pool(pool),
        enc_class_info(c),
        enc_counted(c.interfaces),
        enc_members(pool, c.fields),
        enc_members(pool, c.methods),
        enc_attrs(pool, c.attributes),
    );
    assert(header.len() == 8);
    lemma_occurs_join(bytes, 8, e1, rest);
    lemma_occurs_join(bytes, 0, header, e1 + rest);
    lemma_occurs_all(bytes, header + (e1 + rest));
}

} // verus!
