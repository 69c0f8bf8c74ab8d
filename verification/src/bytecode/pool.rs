//! The codec of the constant pool.
use vstd::prelude::*;
use crate::bytecode::classfile::Constant;
use crate::bytecode::classfile::ConstantPoolIndex;
use crate::bytecode::classfile::ConstantView;
use crate::bytecode::classfile::ReferenceKind;
use crate::bytecode::classfile::constants_view;
use crate::bytecode::classfile::lemma_reference_kind_round_trip;
use crate::bytecode::wire::Fault;
use crate::bytecode::wire::FaultKind;
use crate::bytecode::wire::Flaw;
use crate::bytecode::wire::agrees;
use crate::bytecode::wire::agrees_plain;
use crate::bytecode::wire::appended;
use crate::bytecode::wire::be16;
use crate::bytecode::wire::be32;
use crate::bytecode::wire::be64;
use crate::bytecode::wire::fault;
use crate::bytecode::wire::get_bytes;
use crate::bytecode::wire::get_u16;
use crate::bytecode::wire::get_u32;
use crate::bytecode::wire::get_u64;
use crate::bytecode::wire::get_u8;
use crate::bytecode::wire::in_region;
use crate::bytecode::wire::lemma_occurs_bytes;
use crate::bytecode::wire::lemma_occurs_split;
use crate::bytecode::wire::lemma_occurs_u16;
use crate::bytecode::wire::lemma_occurs_u32;
use crate::bytecode::wire::lemma_occurs_u64;
use crate::bytecode::wire::lemma_occurs_u8;
use crate::bytecode::wire::occurs;
use crate::bytecode::wire::prepend;
use crate::bytecode::wire::put_bytes;
use crate::bytecode::wire::put_u16;
use crate::bytecode::wire::put_u32;
use crate::bytecode::wire::put_u64;
use crate::bytecode::wire::put_u8;
use crate::bytecode::wire::take_bytes;
use crate::bytecode::wire::take_u16;
use crate::bytecode::wire::take_u32;
use crate::bytecode::wire::take_u64;
use crate::bytecode::wire::take_u8;
use crate::bytecode::wire::then;

verus! {

broadcast use crate::bytecode::wire::group_wire_lengths;

/// The tags of the constants that the format defines.
pub open spec fn defined_tag(tag: u8) -> bool {
    tag == 1 || (3 <= tag <= 12) || tag == 15 || tag == 16 || tag == 18
}

/// The two bytes of a pool index.
pub open spec fn enc_index(i: ConstantPoolIndex) -> Result<Seq<u8>, Flaw> {
    if i.idx <= 0xFFFF {
        Ok(be16(i.idx as u16))
    } else {
        Err(Flaw::IndexOutOfRange)
    }
}

/// The pool index at `pos`.
pub open spec fn dec_index(s: Seq<u8>, pos: int, end: int) -> Result<(ConstantPoolIndex, int), Fault> {
    match take_u16(s, pos, end) {
        Ok((v, p)) => Ok((ConstantPoolIndex { idx: v as usize }, p)),
        Err(e) => Err(e),
    }
}

/// Two pool indices, one after the other.
pub open spec fn dec_index_pair(s: Seq<u8>, pos: int, end: int) -> Result<
    ((ConstantPoolIndex, ConstantPoolIndex), int),
    Fault,
> {
    match dec_index(s, pos, end) {
        Ok((a, p)) => match dec_index(s, p, end) {
            Ok((b, q)) => Ok(((a, b), q)),
            Err(e) => Err(e),
        },
        Err(e) => Err(e),
    }
}

/// The bytes of one constant: its tag and its payload.
#[verifier::opaque]
pub open spec fn enc_constant(c: ConstantView) -> Result<Seq<u8>, Flaw> {
    match c {
        ConstantView::Utf8(bytes) => if bytes.len() <= 0xFFFF {
            Ok(seq![1u8] + be16(bytes.len() as u16) + bytes)
        } else {
            Err(Flaw::LengthOutOfRange)
        },
        ConstantView::Integer(v) => Ok(seq![3u8] + be32(v)),
        ConstantView::Float(v) => Ok(seq![4u8] + be32(v)),
        ConstantView::Long(v) => Ok(seq![5u8] + be64(v)),
        ConstantView::Double(v) => Ok(seq![6u8] + be64(v)),
        ConstantView::Class(i) => then(Ok(seq![7u8]), enc_index(i)),
        ConstantView::String(i) => then(Ok(seq![8u8]), enc_index(i)),
        ConstantView::FieldRef { class_index, name_and_type_index } => then(
            Ok(seq![9u8]),
            then(enc_index(class_index), enc_index(name_and_type_index)),
        ),
        ConstantView::MethodRef { class_index, name_and_type_index } => then(
            Ok(seq![10u8]),
            then(enc_index(class_index), enc_index(name_and_type_index)),
        ),
        ConstantView::InterfaceMethodRef { class_index, name_and_type_index } => then(
            Ok(seq![11u8]),
            then(enc_index(class_index), enc_index(name_and_type_index)),
        ),
        ConstantView::NameAndType { name_index, descriptor_index } => then(
            Ok(seq![12u8]),
            then(enc_index(name_index), enc_index(descriptor_index)),
        ),
        ConstantView::MethodHandle { reference_kind, reference_index } => then(
            Ok(seq![15u8, reference_kind.code()]),
            enc_index(reference_index),
        ),
        ConstantView::MethodType(i) => then(Ok(seq![16u8]), enc_index(i)),
        ConstantView::InvokeDynamic { bootstrap_method_attr_index, name_and_type_index } => then(
            Ok(seq![18u8]),
            then(enc_index(bootstrap_method_attr_index), enc_index(name_and_type_index)),
        ),
        ConstantView::Unknown(tag) => if defined_tag(tag) {
            Err(Flaw::DefinedTag)
        } else {
            Ok(seq![tag])
        },
        ConstantView::Placeholder => Err(Flaw::MisplacedPlaceholder),
    }
}

/// The constant that starts at `pos`. A tag that is not defined gives
/// `Unknown` and takes one byte.
#[verifier::opaque]
pub open spec fn dec_constant(s: Seq<u8>, pos: int, end: int) -> Result<(ConstantView, int), Fault> {
    match take_u8(s, pos, end) {
        Err(e) => Err(e),
        Ok((tag, p)) => if tag == 1 {
            match take_u16(s, p, end) {
                Err(e) => Err(e),
                Ok((n, q)) => match take_bytes(s, q, end, n as int) {
                    Err(e) => Err(e),
                    Ok((bytes, r)) => Ok((ConstantView::Utf8(bytes), r)),
                },
            }
        } else if tag == 3 || tag == 4 {
            match take_u32(s, p, end) {
                Err(e) => Err(e),
                Ok((v, q)) => Ok(
                    (
                        if tag == 3 {
                            ConstantView::Integer(v)
                        } else {
                            ConstantView::Float(v)
                        },
                        q,
                    ),
                ),
            }
        } else if tag == 5 || tag == 6 {
            match take_u64(s, p, end) {
                Err(e) => Err(e),
                Ok((v, q)) => Ok(
                    (
                        if tag == 5 {
                            ConstantView::Long(v)
                        } else {
                            ConstantView::Double(v)
                        },
                        q,
                    ),
                ),
            }
        } else if tag == 7 || tag == 8 || tag == 16 {
            match dec_index(s, p, end) {
                Err(e) => Err(e),
                Ok((i, q)) => Ok(
                    (
                        if tag == 7 {
                            ConstantView::Class(i)
                        } else if tag == 8 {
                            ConstantView::String(i)
                        } else {
                            ConstantView::MethodType(i)
                        },
                        q,
                    ),
                ),
            }
        } else if (9 <= tag <= 12) || tag == 18 {
            match dec_index_pair(s, p, end) {
                Err(e) => Err(e),
                Ok(((a, b), q)) => Ok(
                    (
                        if tag == 9 {
                            ConstantView::FieldRef { class_index: a, name_and_type_index: b }
                        } else if tag == 10 {
                            ConstantView::MethodRef { class_index: a, name_and_type_index: b }
                        } else if tag == 11 {
                            ConstantView::InterfaceMethodRef {
                                class_index: a,
                                name_and_type_index: b,
                            }
                        } else if tag == 12 {
                            ConstantView::NameAndType { name_index: a, descriptor_index: b }
                        } else {
                            ConstantView::InvokeDynamic {
                                bootstrap_method_attr_index: a,
                                name_and_type_index: b,
                            }
                        },
                        q,
                    ),
                ),
            }
        } else if tag == 15 {
            match take_u8(s, p, end) {
                Err(e) => Err(e),
                Ok((k, q)) => match dec_index(s, q, end) {
                    Err(e) => Err(e),
                    Ok((i, r)) => Ok(
                        (
                            ConstantView::MethodHandle {
                                reference_kind: ReferenceKind::of_code(k),
                                reference_index: i,
                            },
                            r,
                        ),
                    ),
                },
            }
        } else {
            Ok((ConstantView::Unknown(tag), p))
        },
    }
}

/// The bytes of the constants of `pool` from position `i` on. The second
/// slot of an eight-byte constant holds a placeholder, which has no bytes.
pub open spec fn enc_constants(pool: Seq<ConstantView>, i: int) -> Result<Seq<u8>, Flaw>
    decreases pool.len() - i,
{
    if i < 0 || i >= pool.len() {
        Ok(Seq::empty())
    } else if pool[i].is_wide() {
        if i + 1 < pool.len() && pool[i + 1] is Placeholder {
            then(enc_constant(pool[i]), enc_constants(pool, i + 2))
        } else {
            Err(Flaw::MisplacedPlaceholder)
        }
    } else {
        then(enc_constant(pool[i]), enc_constants(pool, i + 1))
    }
}

/// The bytes of a constant pool: the count of its slots, which is one more
/// than the number of its entries, and the constants.
pub open spec fn enc_pool(pool: Seq<ConstantView>) -> Result<Seq<u8>, Flaw> {
    if pool.len() + 1 <= 0xFFFF {
        then(Ok(be16((pool.len() + 1) as u16)), enc_constants(pool, 0))
    } else {
        Err(Flaw::CountOutOfRange)
    }
}

/// The constants that fill `slots` slots from `pos` on. An eight-byte
/// constant fills two, and may not start in the last one.
pub open spec fn dec_constants(s: Seq<u8>, pos: int, end: int, slots: int) -> Result<
    (Seq<ConstantView>, int),
    Fault,
>
    decreases slots,
{
    if slots <= 0 {
        Ok((Seq::empty(), pos))
    } else {
        match dec_constant(s, pos, end) {
            Err(e) => Err(e),
            Ok((c, p)) => if c.is_wide() {
                if slots < 2 {
                    Err(fault(FaultKind::PoolOverrun, pos))
                } else {
                    prepend(seq![c, ConstantView::Placeholder], dec_constants(s, p, end, slots - 2))
                }
            } else {
                prepend(seq![c], dec_constants(s, p, end, slots - 1))
            },
        }
    }
}

/// The constant pool that starts at `pos`. A count of zero is read as a
/// pool without entries.
pub open spec fn dec_pool(s: Seq<u8>, pos: int, end: int) -> Result<(Seq<ConstantView>, int), Fault> {
    match take_u16(s, pos, end) {
        Err(e) => Err(e),
        Ok((count, p)) => if count == 0 {
            Err(fault(FaultKind::EmptyPoolCount, pos))
        } else {
            dec_constants(s, p, end, count - 1)
        },
    }
}

/// Reads the pool index at `pos`.
pub fn read_index(b: &[u8], pos: usize, end: usize) -> (r: Result<(ConstantPoolIndex, usize), Fault>)
    requires
        in_region(b@, pos as int, end as int),
    ensures
        agrees_plain(r, dec_index(b@, pos as int, end as int), pos, end),
{
    let (v, p) = get_u16(b, pos, end)?;
    Ok((ConstantPoolIndex { idx: v as usize }, p))
}

/// Reads the two pool indices at `pos`.
pub fn read_index_pair(b: &[u8], pos: usize, end: usize) -> (r: Result<
    ((ConstantPoolIndex, ConstantPoolIndex), usize),
    Fault,
>)
    requires
        in_region(b@, pos as int, end as int),
    ensures
        agrees_plain(r, dec_index_pair(b@, pos as int, end as int), pos, end),
{
    let (x, p) = read_index(b, pos, end)?;
    let (y, q) = read_index(b, p, end)?;
    Ok(((x, y), q))
}

/// Reads the constant that starts at `pos`.
pub fn read_constant(b: &[u8], pos: usize, end: usize) -> (r: Result<(Constant, usize), Fault>)
    requires
        in_region(b@, pos as int, end as int),
    ensures
        agrees(r, dec_constant(b@, pos as int, end as int), pos, end),
{
    reveal(dec_constant);
    let (tag, p) = get_u8(b, pos, end)?;
    if tag == 1 {
        let (n, q) = get_u16(b, p, end)?;
        let (bytes, r) = get_bytes(b, q, end, n as usize)?;
        Ok((Constant::Utf8(bytes), r))
    } else if tag == 3 || tag == 4 {
        let (v, q) = get_u32(b, p, end)?;
        if tag == 3 {
            Ok((Constant::Integer(v), q))
        } else {
            Ok((Constant::Float(v), q))
        }
    } else if tag == 5 || tag == 6 {
        let (v, q) = get_u64(b, p, end)?;
        if tag == 5 {
            Ok((Constant::Long(v), q))
        } else {
            Ok((Constant::Double(v), q))
        }
    } else if tag == 7 || tag == 8 || tag == 16 {
        let (i, q) = read_index(b, p, end)?;
        if tag == 7 {
            Ok((Constant::Class(i), q))
        } else if tag == 8 {
            Ok((Constant::String(i), q))
        } else {
            Ok((Constant::MethodType(i), q))
        }
    } else if (9 <= tag && tag <= 12) || tag == 18 {
        let ((x, y), q) = read_index_pair(b, p, end)?;
        if tag == 9 {
            Ok((Constant::FieldRef { class_index: x, name_and_type_index: y }, q))
        } else if tag == 10 {
            Ok((Constant::MethodRef { class_index: x, name_and_type_index: y }, q))
        } else if tag == 11 {
            Ok((Constant::InterfaceMethodRef { class_index: x, name_and_type_index: y }, q))
        } else if tag == 12 {
            Ok((Constant::NameAndType { name_index: x, descriptor_index: y }, q))
        } else {
            Ok((Constant::InvokeDynamic { bootstrap_method_attr_index: x, name_and_type_index: y }, q))
        }
    } else if tag == 15 {
        let (k, q) = get_u8(b, p, end)?;
        let (i, r) = read_index(b, q, end)?;
        Ok((Constant::MethodHandle { reference_kind: ReferenceKind::from_u8(k), reference_index: i }, r))
    } else {
        Ok((Constant::Unknown(tag), p))
    }
}

/// Reads the constant pool that starts at `pos`.
pub fn read_pool(b: &[u8], pos: usize, end: usize) -> (r: Result<(Vec<Constant>, usize), Fault>)
    requires
        in_region(b@, pos as int, end as int),
    ensures
        match r {
            Ok((v, p)) => dec_pool(b@, pos as int, end as int) == Ok::<(Seq<ConstantView>, int), Fault>(
                (constants_view(v@), p as int),
            ) && pos <= p <= end,
            Err(e) => dec_pool(b@, pos as int, end as int) == Err::<(Seq<ConstantView>, int), Fault>(e),
        },
{
    let (count, start) = get_u16(b, pos, end)?;
    if count == 0 {
        return Err(Fault { kind: FaultKind::EmptyPoolCount, offset: pos });
    }
    let mut v: Vec<Constant> = Vec::new();
    let mut slots: u16 = count - 1;
    let mut p: usize = start;
    assert(constants_view(v@) =~= Seq::empty());
    while slots > 0
        invariant
            in_region(b@, p as int, end as int),
            pos <= p,
            dec_pool(b@, pos as int, end as int) == prepend(
                constants_view(v@),
                dec_constants(b@, p as int, end as int, slots as int),
            ),
        decreases slots,
    {
        let ghost before = constants_view(v@);
        let (c, q) = read_constant(b, p, end)?;
        let size = c.cp_size();
        if size == 2 {
            if slots < 2 {
                return Err(Fault { kind: FaultKind::PoolOverrun, offset: p });
            }
            let ghost cv = c@;
            v.push(c);
            v.push(Constant::Placeholder);
            slots = slots - 2;
            proof {
                let rest = dec_constants(b@, q as int, end as int, slots as int);
                assert(constants_view(v@) =~= before + seq![cv, ConstantView::Placeholder]);
                if let Ok((tail, _)) = rest {
                    assert(before + (seq![cv, ConstantView::Placeholder] + tail) =~= constants_view(v@)
                        + tail);
                }
            }
        } else {
            let ghost cv = c@;
            v.push(c);
            slots = slots - 1;
            proof {
                let rest = dec_constants(b@, q as int, end as int, slots as int);
                assert(constants_view(v@) =~= before + seq![cv]);
                if let Ok((tail, _)) = rest {
                    assert(before + (seq![cv] + tail) =~= constants_view(v@) + tail);
                }
            }
        }
        p = q;
    }
    proof {
        assert(constants_view(v@) + Seq::<ConstantView>::empty() =~= constants_view(v@));
    }
    Ok((v, p))
}

/// Appends the two bytes of a pool index.
pub fn write_index(out: &mut Vec<u8>, i: &ConstantPoolIndex) -> (r: Result<(), Flaw>)
    ensures
        appended(r, enc_index(*i), old(out)@, final(out)@),
{
    if i.idx <= 0xFFFF {
        put_u16(out, i.idx as u16);
        Ok(())
    } else {
        Err(Flaw::IndexOutOfRange)
    }
}

/// The two indices `x` and `y`, one after the other.
pub fn write_index_pair(out: &mut Vec<u8>, x: &ConstantPoolIndex, y: &ConstantPoolIndex) -> (r:
    Result<(), Flaw>)
    ensures
        appended(r, then(enc_index(*x), enc_index(*y)), old(out)@, final(out)@),
{
    write_index(out, x)?;
    write_index(out, y)?;
    assert(enc_index(*x) matches Ok(ex) && enc_index(*y) matches Ok(ey) && old(out)@ + ex + ey
        =~= old(out)@ + (ex + ey));
    Ok(())
}

/// Appends the bytes of one constant.
pub fn write_constant(out: &mut Vec<u8>, c: &Constant) -> (r: Result<(), Flaw>)
    ensures
        appended(r, enc_constant(c@), old(out)@, final(out)@),
{
    reveal(enc_constant);
    let ghost start = out@;
    match c {
        Constant::Utf8(bytes) => {
            if bytes.len() > 0xFFFF {
                return Err(Flaw::LengthOutOfRange);
            }
            put_u8(out, 1);
            put_u16(out, bytes.len() as u16);
            put_bytes(out, bytes);
            assert(out@ =~= start + (seq![1u8] + be16(bytes@.len() as u16) + bytes@));
            Ok(())
        },
        Constant::Integer(v) => {
            put_u8(out, 3);
            put_u32(out, *v);
            assert(out@ =~= start + (seq![3u8] + be32(*v)));
            Ok(())
        },
        Constant::Float(v) => {
            put_u8(out, 4);
            put_u32(out, *v);
            assert(out@ =~= start + (seq![4u8] + be32(*v)));
            Ok(())
        },
        Constant::Long(v) => {
            put_u8(out, 5);
            put_u64(out, *v);
            assert(out@ =~= start + (seq![5u8] + be64(*v)));
            Ok(())
        },
        Constant::Double(v) => {
            put_u8(out, 6);
            put_u64(out, *v);
            assert(out@ =~= start + (seq![6u8] + be64(*v)));
            Ok(())
        },
        Constant::Class(i) => write_tagged_index(out, 7, i),
        Constant::String(i) => write_tagged_index(out, 8, i),
        Constant::MethodType(i) => write_tagged_index(out, 16, i),
        Constant::FieldRef { class_index, name_and_type_index } => write_tagged_pair(
            out,
            9,
            class_index,
            name_and_type_index,
        ),
        Constant::MethodRef { class_index, name_and_type_index } => write_tagged_pair(
            out,
            10,
            class_index,
            name_and_type_index,
        ),
        Constant::InterfaceMethodRef { class_index, name_and_type_index } => write_tagged_pair(
            out,
            11,
            class_index,
            name_and_type_index,
        ),
        Constant::NameAndType { name_index, descriptor_index } => write_tagged_pair(
            out,
            12,
            name_index,
            descriptor_index,
        ),
        Constant::InvokeDynamic { bootstrap_method_attr_index, name_and_type_index } => write_tagged_pair(
            out,
            18,
            bootstrap_method_attr_index,
            name_and_type_index,
        ),
        Constant::MethodHandle { reference_kind, reference_index } => {
            if reference_index.idx > 0xFFFF {
                return Err(Flaw::IndexOutOfRange);
            }
            put_u8(out, 15);
            put_u8(out, reference_kind.to_u8());
            put_u16(out, reference_index.idx as u16);
            assert(out@ =~= start + (seq![15u8, reference_kind.code()] + be16(
                reference_index.idx as u16,
            )));
            Ok(())
        },
        Constant::Unknown(tag) => {
            let t: u8 = *tag;
            if t == 1 || (3 <= t && t <= 12) || t == 15 || t == 16 || t == 18 {
                Err(Flaw::DefinedTag)
            } else {
                put_u8(out, t);
                Ok(())
            }
        },
        Constant::Placeholder => Err(Flaw::MisplacedPlaceholder),
    }
}

fn write_tagged_index(out: &mut Vec<u8>, tag: u8, i: &ConstantPoolIndex) -> (r: Result<(), Flaw>)
    ensures
        appended(r, then(Ok(seq![tag]), enc_index(*i)), old(out)@, final(out)@),
{
    if i.idx > 0xFFFF {
        return Err(Flaw::IndexOutOfRange);
    }
    put_u8(out, tag);
    put_u16(out, i.idx as u16);
    assert(out@ =~= old(out)@ + (seq![tag] + be16(i.idx as u16)));
    Ok(())
}

fn write_tagged_pair(out: &mut Vec<u8>, tag: u8, x: &ConstantPoolIndex, y: &ConstantPoolIndex) -> (r:
    Result<(), Flaw>)
    ensures
        appended(r, then(Ok(seq![tag]), then(enc_index(*x), enc_index(*y))), old(out)@, final(out)@),
{
    if x.idx > 0xFFFF || y.idx > 0xFFFF {
        return Err(Flaw::IndexOutOfRange);
    }
    put_u8(out, tag);
    put_u16(out, x.idx as u16);
    put_u16(out, y.idx as u16);
    assert(out@ =~= old(out)@ + (seq![tag] + (be16(x.idx as u16) + be16(y.idx as u16))));
    Ok(())
}

/// One step of [`enc_constants`]: after the constant at `i`, whose bytes
/// are `e`, the rest starts at `next`.
proof fn lemma_enc_constants_step(
    views: Seq<ConstantView>,
    i: int,
    next: int,
    acc: Seq<u8>,
    e: Result<Seq<u8>, Flaw>,
)
    requires
        0 <= i < views.len(),
        enc_constants(views, 0) == then(Ok(acc), enc_constants(views, i)),
        e == enc_constant(views[i]),
        views[i].is_wide() ==> i + 1 < views.len() && views[i + 1] is Placeholder,
        next == if views[i].is_wide() {
            i + 2
        } else {
            i + 1
        },
    ensures
        match e {
            Ok(bytes) => enc_constants(views, 0) == then(Ok(acc + bytes), enc_constants(views, next)),
            Err(f) => enc_constants(views, 0) == Err::<Seq<u8>, Flaw>(f),
        },
{
    let rest = enc_constants(views, next);
    assert(enc_constants(views, i) == then(e, rest));
    if let Ok(bytes) = e {
        if let Ok(tail) = rest {
            assert(acc + (bytes + tail) =~= (acc + bytes) + tail);
        }
    }
}

/// The encoding of a pool is its count and then its constants.
proof fn lemma_enc_pool_done(views: Seq<ConstantView>, acc: Seq<u8>)
    requires
        views.len() + 1 <= 0xFFFF,
        enc_constants(views, 0) == then::<Flaw>(Ok(acc), Ok(Seq::empty())),
    ensures
        enc_pool(views) == Ok::<Seq<u8>, Flaw>(be16((views.len() + 1) as u16) + acc),
{
    assert(acc + Seq::<u8>::empty() =~= acc);
}

/// Appends the bytes of a constant pool.
pub fn write_pool(out: &mut Vec<u8>, pool: &Vec<Constant>) -> (r: Result<(), Flaw>)
    ensures
        appended(r, enc_pool(constants_view(pool@)), old(out)@, final(out)@),
{
    let ghost start = out@;
    let ghost views = constants_view(pool@);
    let n = pool.len();
    if n >= 0xFFFF {
        return Err(Flaw::CountOutOfRange);
    }
    put_u16(out, (n + 1) as u16);
    let ghost head = be16((n + 1) as u16);
    let mut i: usize = 0;
    let ghost mut acc: Seq<u8> = Seq::empty();
    assert(out@ =~= start + head + acc);
    assert(Seq::<u8>::empty() + Seq::<u8>::empty() =~= Seq::<u8>::empty());
    assert(enc_constants(views, 0) == then(Ok(acc), enc_constants(views, 0))) by {
        if let Ok(t) = enc_constants(views, 0) {
            assert(acc + t =~= t);
        }
    }
    while i < n
        invariant
            i <= n + 1,
            n == pool@.len(),
            n < 0xFFFF,
            views == constants_view(pool@),
            out@ == start + head + acc,
            head == be16((n + 1) as u16),
            enc_constants(views, 0) == then(Ok(acc), enc_constants(views, i as int)),
        decreases n + 1 - i,
    {
        let c = &pool[i];
        assert(views[i as int] == c@);
        let size = c.cp_size();
        if size == 2 {
            if i + 1 < n {
                assert(views[i + 1] == pool@[i + 1]@);
                match &pool[i + 1] {
                    Constant::Placeholder => {},
                    _ => {
                        return Err(Flaw::MisplacedPlaceholder);
                    },
                }
            } else {
                return Err(Flaw::MisplacedPlaceholder);
            }
        }
        let next: usize = if size == 2 {
            i + 2
        } else {
            i + 1
        };
        proof {
            lemma_enc_constants_step(views, i as int, next as int, acc, enc_constant(c@));
        }
        write_constant(out, c)?;
        proof {
            let e = enc_constant(c@)->Ok_0;
            assert(out@ =~= start + head + (acc + e));
            acc = acc + e;
        }
        i = next;
    }
    proof {
        lemma_enc_pool_done(views, acc);
        assert(start + head + acc =~= start + (head + acc));
    }
    Ok(())
}

/// A pool index that was written is read back.
pub proof fn lemma_index_round_trip(i: ConstantPoolIndex, s: Seq<u8>, pos: int, end: int)
    requires
        enc_index(i) matches Ok(e) && occurs(s, pos, e) && pos + e.len() <= end,
    ensures
        dec_index(s, pos, end) == Ok::<(ConstantPoolIndex, int), Fault>((i, pos + 2)),
        enc_index(i)->Ok_0.len() == 2,
{
    lemma_occurs_u16(s, pos, end, i.idx as u16);
}

/// Two pool indices that were written are read back.
pub proof fn lemma_index_pair_round_trip(
    a: ConstantPoolIndex,
    b: ConstantPoolIndex,
    s: Seq<u8>,
    pos: int,
    end: int,
)
    requires
        then(enc_index(a), enc_index(b)) matches Ok(e) && occurs(s, pos, e) && pos + e.len() <= end,
    ensures
        dec_index_pair(s, pos, end) == Ok::<((ConstantPoolIndex, ConstantPoolIndex), int), Fault>(
            ((a, b), pos + 4),
        ),
        then(enc_index(a), enc_index(b))->Ok_0.len() == 4,
{
    let ea = enc_index(a)->Ok_0;
    let eb = enc_index(b)->Ok_0;
    lemma_occurs_split(s, pos, ea, eb);
    lemma_index_round_trip(a, s, pos, end);
    lemma_index_round_trip(b, s, pos + 2, end);
}

/// A pool index that was read has an encoding of two bytes.
pub proof fn lemma_index_encodable(s: Seq<u8>, pos: int, end: int)
    requires
        dec_index(s, pos, end) is Ok,
    ensures
        enc_index(dec_index(s, pos, end)->Ok_0.0) matches Ok(e) && e.len() == 2,
        dec_index(s, pos, end)->Ok_0.1 == pos + 2,
{
}

/// A constant that was written is read back, and the reader stops where
/// its bytes end.
pub proof fn lemma_constant_round_trip(c: ConstantView, s: Seq<u8>, pos: int, end: int)
    requires
        enc_constant(c) matches Ok(e) && occurs(s, pos, e) && pos + e.len() <= end,
    ensures
        dec_constant(s, pos, end) == Ok::<(ConstantView, int), Fault>(
            (c, pos + enc_constant(c)->Ok_0.len()),
        ),
        enc_constant(c)->Ok_0.len() >= 1,
{
    reveal(enc_constant);
    reveal(dec_constant);
    let e = enc_constant(c)->Ok_0;
    match c {
        ConstantView::Utf8(bytes) => {
            let head = seq![1u8] + be16(bytes.len() as u16);
            lemma_occurs_split(s, pos, head, bytes);
            lemma_occurs_split(s, pos, seq![1u8], be16(bytes.len() as u16));
            lemma_occurs_u8(s, pos, end, 1u8);
            lemma_occurs_u16(s, pos + 1, end, bytes.len() as u16);
            lemma_occurs_bytes(s, pos + 3, end, bytes);
        },
        ConstantView::Integer(v) => {
            lemma_occurs_split(s, pos, seq![3u8], be32(v));
            lemma_occurs_u8(s, pos, end, 3u8);
            lemma_occurs_u32(s, pos + 1, end, v);
        },
        ConstantView::Float(v) => {
            lemma_occurs_split(s, pos, seq![4u8], be32(v));
            lemma_occurs_u8(s, pos, end, 4u8);
            lemma_occurs_u32(s, pos + 1, end, v);
        },
        ConstantView::Long(v) => {
            lemma_occurs_split(s, pos, seq![5u8], be64(v));
            lemma_occurs_u8(s, pos, end, 5u8);
            lemma_occurs_u64(s, pos + 1, end, v);
        },
        ConstantView::Double(v) => {
            lemma_occurs_split(s, pos, seq![6u8], be64(v));
            lemma_occurs_u8(s, pos, end, 6u8);
            lemma_occurs_u64(s, pos + 1, end, v);
        },
        ConstantView::Class(i) => {
            lemma_tagged_index(7u8, i, s, pos, end);
        },
        ConstantView::String(i) => {
            lemma_tagged_index(8u8, i, s, pos, end);
        },
        ConstantView::MethodType(i) => {
            lemma_tagged_index(16u8, i, s, pos, end);
        },
        ConstantView::FieldRef { class_index, name_and_type_index } => {
            lemma_tagged_pair(9u8, class_index, name_and_type_index, s, pos, end);
        },
        ConstantView::MethodRef { class_index, name_and_type_index } => {
            lemma_tagged_pair(10u8, class_index, name_and_type_index, s, pos, end);
        },
        ConstantView::InterfaceMethodRef { class_index, name_and_type_index } => {
            lemma_tagged_pair(11u8, class_index, name_and_type_index, s, pos, end);
        },
        ConstantView::NameAndType { name_index, descriptor_index } => {
            lemma_tagged_pair(12u8, name_index, descriptor_index, s, pos, end);
        },
        ConstantView::InvokeDynamic { bootstrap_method_attr_index, name_and_type_index } => {
            lemma_tagged_pair(18u8, bootstrap_method_attr_index, name_and_type_index, s, pos, end);
        },
        ConstantView::MethodHandle { reference_kind, reference_index } => {
            let head = seq![15u8, reference_kind.code()];
            let tail = enc_index(reference_index)->Ok_0;
            lemma_occurs_split(s, pos, head, tail);
            assert(s[pos + 0] == head[0]);
            assert(s[pos + 1] == head[1]);
            lemma_index_round_trip(reference_index, s, pos + 2, end);
            lemma_reference_kind_round_trip(reference_kind);
        },
        ConstantView::Unknown(tag) => {
            lemma_occurs_u8(s, pos, end, tag);
        },
        ConstantView::Placeholder => {},
    }
}

proof fn lemma_tagged_index(tag: u8, i: ConstantPoolIndex, s: Seq<u8>, pos: int, end: int)
    requires
        then(Ok(seq![tag]), enc_index(i)) matches Ok(e) && occurs(s, pos, e) && pos + e.len() <= end,
    ensures
        take_u8(s, pos, end) == Ok::<(u8, int), Fault>((tag, pos + 1)),
        dec_index(s, pos + 1, end) == Ok::<(ConstantPoolIndex, int), Fault>((i, pos + 3)),
        then(Ok(seq![tag]), enc_index(i))->Ok_0.len() == 3,
{
    let tail = enc_index(i)->Ok_0;
    lemma_occurs_split(s, pos, seq![tag], tail);
    lemma_occurs_u8(s, pos, end, tag);
    lemma_index_round_trip(i, s, pos + 1, end);
}

proof fn lemma_tagged_pair(
    tag: u8,
    a: ConstantPoolIndex,
    b: ConstantPoolIndex,
    s: Seq<u8>,
    pos: int,
    end: int,
)
    requires
        then(Ok(seq![tag]), then(enc_index(a), enc_index(b))) matches Ok(e) && occurs(s, pos, e) && pos
            + e.len() <= end,
    ensures
        take_u8(s, pos, end) == Ok::<(u8, int), Fault>((tag, pos + 1)),
        dec_index_pair(s, pos + 1, end) == Ok::<((ConstantPoolIndex, ConstantPoolIndex), int), Fault>(
            ((a, b), pos + 5),
        ),
        then(Ok(seq![tag]), then(enc_index(a), enc_index(b)))->Ok_0.len() == 5,
{
    let tail = then(enc_index(a), enc_index(b))->Ok_0;
    lemma_occurs_split(s, pos, seq![tag], tail);
    lemma_occurs_u8(s, pos, end, tag);
    lemma_index_pair_round_trip(a, b, s, pos + 1, end);
}

/// A constant that was read has an encoding, as long as the bytes that
/// were read.
pub proof fn lemma_constant_encodable(s: Seq<u8>, pos: int, end: int)
    requires
        in_region(s, pos, end),
        dec_constant(s, pos, end) is Ok,
    ensures
        enc_constant(dec_constant(s, pos, end)->Ok_0.0) matches Ok(e) && e.len() == dec_constant(
            s,
            pos,
            end,
        )->Ok_0.1 - pos,
        !(dec_constant(s, pos, end)->Ok_0.0 is Placeholder),
        dec_constant(s, pos, end)->Ok_0.1 <= end,
{
    reveal(enc_constant);
    reveal(dec_constant);
    let (tag, p) = take_u8(s, pos, end)->Ok_0;
    let (c, z) = dec_constant(s, pos, end)->Ok_0;
    if tag == 1 {
        let (n, q) = take_u16(s, p, end)->Ok_0;
        let (bytes, _) = take_bytes(s, q, end, n as int)->Ok_0;
        assert(c == ConstantView::Utf8(bytes));
        assert(bytes.len() == n);
        assert(enc_constant(c)->Ok_0.len() == 3 + n);
    } else if tag == 3 || tag == 4 {
        assert(z == pos + 5);
    } else if tag == 5 || tag == 6 {
        let (v, q) = take_u64(s, p, end)->Ok_0;
        assert(be64(v).len() == 8);
        assert(z == pos + 9);
    } else if tag == 7 || tag == 8 || tag == 16 {
        lemma_index_encodable(s, p, end);
        assert(z == pos + 3);
    } else if (9 <= tag <= 12) || tag == 18 {
        let (a, q) = dec_index(s, p, end)->Ok_0;
        lemma_index_encodable(s, p, end);
        lemma_index_encodable(s, q, end);
        assert(z == pos + 5);
    } else if tag == 15 {
        let (_, q) = take_u8(s, p, end)->Ok_0;
        lemma_index_encodable(s, q, end);
        assert(z == pos + 4);
    } else {
        assert(c == ConstantView::Unknown(tag));
        assert(!defined_tag(tag));
    }
}

/// The constants of `a + b` from the end of `a` on are those of `b`.
pub proof fn lemma_enc_constants_shift(a: Seq<ConstantView>, b: Seq<ConstantView>, i: int)
    requires
        0 <= i,
    ensures
        enc_constants(a + b, a.len() + i) == enc_constants(b, i),
    decreases b.len() - i,
{
    let ab = a + b;
    if i < b.len() {
        assert(ab[a.len() + i] == b[i]);
        if b[i].is_wide() {
            if i + 1 < b.len() {
                assert(ab[a.len() + i + 1] == b[i + 1]);
                lemma_enc_constants_shift(a, b, i + 2);
            }
        } else {
            lemma_enc_constants_shift(a, b, i + 1);
        }
    }
}

/// The constants of a pool that were written are read back.
pub proof fn lemma_constants_round_trip(pool: Seq<ConstantView>, i: int, s: Seq<u8>, pos: int, end: int)
    requires
        0 <= i <= pool.len(),
        enc_constants(pool, i) matches Ok(e) && occurs(s, pos, e) && pos + e.len() <= end,
    ensures
        dec_constants(s, pos, end, pool.len() - i) == Ok::<(Seq<ConstantView>, int), Fault>(
            (pool.skip(i), pos + enc_constants(pool, i)->Ok_0.len()),
        ),
    decreases pool.len() - i,
{
    if i >= pool.len() {
        assert(pool.skip(i) =~= Seq::empty());
    } else {
        let c = pool[i];
        let next = if c.is_wide() {
            i + 2
        } else {
            i + 1
        };
        let ec = enc_constant(c)->Ok_0;
        let rest = enc_constants(pool, next)->Ok_0;
        lemma_occurs_split(s, pos, ec, rest);
        lemma_constant_round_trip(c, s, pos, end);
        lemma_constants_round_trip(pool, next, s, pos + ec.len(), end);
        if c.is_wide() {
            assert(pool.skip(i) =~= seq![c, ConstantView::Placeholder] + pool.skip(next));
        } else {
            assert(pool.skip(i) =~= seq![c] + pool.skip(next));
        }
    }
}

/// A pool that was written is read back, and the reader stops where its
/// bytes end.
pub proof fn lemma_pool_round_trip(pool: Seq<ConstantView>, s: Seq<u8>, pos: int, end: int)
    requires
        enc_pool(pool) matches Ok(e) && occurs(s, pos, e) && pos + e.len() <= end,
    ensures
        dec_pool(s, pos, end) == Ok::<(Seq<ConstantView>, int), Fault>(
            (pool, pos + enc_pool(pool)->Ok_0.len()),
        ),
{
    let head = be16((pool.len() + 1) as u16);
    let body = enc_constants(pool, 0)->Ok_0;
    lemma_occurs_split(s, pos, head, body);
    lemma_occurs_u16(s, pos, end, (pool.len() + 1) as u16);
    lemma_constants_round_trip(pool, 0, s, pos + 2, end);
    assert(pool.skip(0) =~= pool);
}

/// Constants that were read fill the slots asked for and have an
/// encoding, as long as the bytes that were read.
pub proof fn lemma_constants_encodable(s: Seq<u8>, pos: int, end: int, slots: int)
    requires
        in_region(s, pos, end),
        0 <= slots,
        dec_constants(s, pos, end, slots) is Ok,
    ensures
        ({
            let (cs, p) = dec_constants(s, pos, end, slots)->Ok_0;
            &&& cs.len() == slots
            &&& p <= end
            &&& enc_constants(cs, 0) matches Ok(e) && e.len() == p - pos
        }),
    decreases slots,
{
    if slots > 0 {
        let (c, p) = dec_constant(s, pos, end)->Ok_0;
        lemma_constant_encodable(s, pos, end);
        let used: int = if c.is_wide() {
            2
        } else {
            1
        };
        let head = if c.is_wide() {
            seq![c, ConstantView::Placeholder]
        } else {
            seq![c]
        };
        let (rest, _) = dec_constants(s, p, end, slots - used)->Ok_0;
        lemma_constants_encodable(s, p, end, slots - used);
        let cs = head + rest;
        assert(cs[0] == c);
        lemma_enc_constants_shift(head, rest, 0);
        if c.is_wide() {
            assert(cs[1] is Placeholder);
        }
        assert(enc_constants(cs, 0) == then(enc_constant(c), enc_constants(cs, used)));
    }
}

/// A pool that was read has an encoding, as long as the bytes that were
/// read.
pub proof fn lemma_pool_encodable(s: Seq<u8>, pos: int, end: int)
    requires
        in_region(s, pos, end),
        dec_pool(s, pos, end) is Ok,
    ensures
        ({
            let (pool, p) = dec_pool(s, pos, end)->Ok_0;
            &&& p <= end
            &&& enc_pool(pool) matches Ok(e) && e.len() == p - pos
        }),
{
    let (count, p) = take_u16(s, pos, end)->Ok_0;
    lemma_constants_encodable(s, p, end, count - 1);
}

} // verus!
