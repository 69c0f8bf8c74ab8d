//! The codec of fields and methods, which have one layout: the access
//! flags, the indices of the name and of the descriptor, and the
//! attributes.
use vstd::prelude::*;
use crate::bytecode::attr::dec_attrs;
use crate::bytecode::attr::enc_attrs;
use crate::bytecode::attr::lemma_attrs_encodable;
use crate::bytecode::attr::lemma_attrs_round_trip;
use crate::bytecode::attr::read_attrs;
use crate::bytecode::attr::write_attrs;
use crate::bytecode::classfile::AccessFlags;
use crate::bytecode::classfile::Attribute;
use crate::bytecode::classfile::AttributeView;
use crate::bytecode::classfile::ConstantPool;
use crate::bytecode::classfile::ConstantPoolIndex;
use crate::bytecode::classfile::ConstantView;
use crate::bytecode::classfile::Field;
use crate::bytecode::classfile::MemberView;
use crate::bytecode::classfile::Method;
use crate::bytecode::classfile::attrs_view;
use crate::bytecode::classfile::fields_view;
use crate::bytecode::classfile::methods_view;
use crate::bytecode::pool::enc_index;
use crate::bytecode::wire::Fault;
use crate::bytecode::wire::FaultKind;
use crate::bytecode::wire::Flaw;
use crate::bytecode::wire::agrees_with;
use crate::bytecode::wire::appended;
use crate::bytecode::wire::be16;
use crate::bytecode::wire::in_region;
use crate::bytecode::wire::lemma_occurs_split;
use crate::bytecode::wire::lemma_occurs_u16;
use crate::bytecode::wire::occurs;
use crate::bytecode::wire::peek_u16;
use crate::bytecode::wire::prepend;
use crate::bytecode::wire::put_u16;
use crate::bytecode::wire::then;
use crate::bytecode::wire::truncated;
use crate::bytecode::wire::word16;

verus! {

/// The bytes of one member.
pub open spec fn enc_member(pool: Seq<ConstantView>, m: MemberView) -> Result<Seq<u8>, Flaw> {
    then(
        Ok(be16(m.access_flags.flags)),
        then(
            enc_index(m.name_index),
            then(enc_index(m.descriptor_index), enc_attrs(pool, m.attributes)),
        ),
    )
}

/// The member that starts at `pos`.
pub open spec fn dec_member(pool: Seq<ConstantView>, s: Seq<u8>, pos: int, end: int) -> Result<
    (MemberView, int),
    Fault,
> {
    if pos + 6 <= end {
        match dec_attrs(pool, s, pos + 6, end) {
            Err(e) => Err(e),
            Ok((attributes, p)) => Ok(
                (
                    MemberView {
                        access_flags: AccessFlags { flags: word16(s, pos) },
                        name_index: ConstantPoolIndex { idx: word16(s, pos + 2) as usize },
                        descriptor_index: ConstantPoolIndex { idx: word16(s, pos + 4) as usize },
                        attributes,
                    },
                    p,
                ),
            ),
        }
    } else {
        Err(truncated(pos))
    }
}

/// The bytes of the members of `items` from position `i` on.
pub open spec fn enc_member_list(pool: Seq<ConstantView>, items: Seq<MemberView>, i: int) -> Result<
    Seq<u8>,
    Flaw,
>
    decreases items.len() - i,
{
    if i < 0 || i >= items.len() {
        Ok(Seq::empty())
    } else {
        then(enc_member(pool, items[i]), enc_member_list(pool, items, i + 1))
    }
}

/// A sixteen-bit count and as many members.
pub open spec fn enc_members(pool: Seq<ConstantView>, items: Seq<MemberView>) -> Result<Seq<u8>, Flaw> {
    if items.len() <= 0xFFFF {
        then(Ok(be16(items.len() as u16)), enc_member_list(pool, items, 0))
    } else {
        Err(Flaw::CountOutOfRange)
    }
}

/// The `n` members that start at `pos`.
pub open spec fn dec_member_list(pool: Seq<ConstantView>, s: Seq<u8>, pos: int, end: int, n: int) -> Result<
    (Seq<MemberView>, int),
    Fault,
>
    decreases n,
{
    if n <= 0 {
        Ok((Seq::empty(), pos))
    } else {
        match dec_member(pool, s, pos, end) {
            Err(e) => Err(e),
            Ok((m, p)) => prepend(seq![m], dec_member_list(pool, s, p, end, n - 1)),
        }
    }
}

/// A sixteen-bit count and as many members.
pub open spec fn dec_members(pool: Seq<ConstantView>, s: Seq<u8>, pos: int, end: int) -> Result<
    (Seq<MemberView>, int),
    Fault,
> {
    if pos + 2 <= end {
        dec_member_list(pool, s, pos + 2, end, word16(s, pos) as int)
    } else {
        Err(truncated(pos))
    }
}

/// What the flags, the indices and the attributes of a member are read
/// as.
pub open spec fn member_of(
    access_flags: AccessFlags,
    name_index: ConstantPoolIndex,
    descriptor_index: ConstantPoolIndex,
    attributes: Seq<AttributeView>,
) -> MemberView {
    MemberView { access_flags, name_index, descriptor_index, attributes }
}

/// Reads the parts of the member that starts at `pos`.
fn read_member_parts(pool: &ConstantPool, b: &[u8], pos: usize, end: usize) -> (r: Result<
    ((AccessFlags, ConstantPoolIndex, ConstantPoolIndex, Vec<Attribute>), usize),
    Fault,
>)
    requires
        in_region(b@, pos as int, end as int),
    ensures
        agrees_with(
            r,
            |
                parts: (AccessFlags, ConstantPoolIndex, ConstantPoolIndex, Vec<Attribute>),
            | member_of(parts.0, parts.1, parts.2, attrs_view(parts.3@)),
            dec_member(pool@, b@, pos as int, end as int),
            pos,
            end,
        ),
{
    if end - pos < 6 {
        return Err(Fault { kind: FaultKind::Truncated, offset: pos });
    }
    let flags = peek_u16(b, pos);
    let name = peek_u16(b, pos + 2);
    let descriptor = peek_u16(b, pos + 4);
    let (attributes, p) = read_attrs(pool, b, pos + 6, end)?;
    Ok(
        (
            (
                AccessFlags { flags },
                ConstantPoolIndex { idx: name as usize },
                ConstantPoolIndex { idx: descriptor as usize },
                attributes,
            ),
            p,
        ),
    )
}

/// Reads a sixteen-bit count and as many fields.
pub fn read_fields(pool: &ConstantPool, b: &[u8], pos: usize, end: usize) -> (r: Result<
    (Vec<Field>, usize),
    Fault,
>)
    requires
        in_region(b@, pos as int, end as int),
    ensures
        agrees_with(
            r,
            |v: Vec<Field>| fields_view(v@),
            dec_members(pool@, b@, pos as int, end as int),
            pos,
            end,
        ),
{
    if end - pos < 2 {
        return Err(Fault { kind: FaultKind::Truncated, offset: pos });
    }
    let n = peek_u16(b, pos);
    let mut v: Vec<Field> = Vec::new();
    let mut p: usize = pos + 2;
    let mut i: u16 = 0;
    assert(fields_view(v@) =~= Seq::empty());
    while i < n
        invariant
            i <= n,
            pos <= p,
            in_region(b@, p as int, end as int),
            dec_members(pool@, b@, pos as int, end as int) == prepend(
                fields_view(v@),
                dec_member_list(pool@, b@, p as int, end as int, n - i),
            ),
        decreases n - i,
    {
        let ghost before = fields_view(v@);
        let ((access_flags, name_index, descriptor_index, attributes), q) = read_member_parts(
            pool,
            b,
            p,
            end,
        )?;
        let x = Field { access_flags, name_index, descriptor_index, attributes };
        let ghost xv = x@;
        v.push(x);
        proof {
            assert(fields_view(v@) =~= before + seq![xv]);
            if let Ok((tail, _)) = dec_member_list(pool@, b@, q as int, end as int, n - i - 1) {
                assert(before + (seq![xv] + tail) =~= fields_view(v@) + tail);
            }
        }
        p = q;
        i = i + 1;
    }
    proof {
        assert(fields_view(v@) + Seq::<MemberView>::empty() =~= fields_view(v@));
    }
    Ok((v, p))
}

/// Reads a sixteen-bit count and as many methods.
pub fn read_methods(pool: &ConstantPool, b: &[u8], pos: usize, end: usize) -> (r: Result<
    (Vec<Method>, usize),
    Fault,
>)
    requires
        in_region(b@, pos as int, end as int),
    ensures
        agrees_with(
            r,
            |v: Vec<Method>| methods_view(v@),
            dec_members(pool@, b@, pos as int, end as int),
            pos,
            end,
        ),
{
    if end - pos < 2 {
        return Err(Fault { kind: FaultKind::Truncated, offset: pos });
    }
    let n = peek_u16(b, pos);
    let mut v: Vec<Method> = Vec::new();
    let mut p: usize = pos + 2;
    let mut i: u16 = 0;
    assert(methods_view(v@) =~= Seq::empty());
    while i < n
        invariant
            i <= n,
            pos <= p,
            in_region(b@, p as int, end as int),
            dec_members(pool@, b@, pos as int, end as int) == prepend(
                methods_view(v@),
                dec_member_list(pool@, b@, p as int, end as int, n - i),
            ),
        decreases n - i,
    {
        let ghost before = methods_view(v@);
        let ((access_flags, name_index, descriptor_index, attributes), q) = read_member_parts(
            pool,
            b,
            p,
            end,
        )?;
        let x = Method { access_flags, name_index, descriptor_index, attributes };
        let ghost xv = x@;
        v.push(x);
        proof {
            assert(methods_view(v@) =~= before + seq![xv]);
            if let Ok((tail, _)) = dec_member_list(pool@, b@, q as int, end as int, n - i - 1) {
                assert(before + (seq![xv] + tail) =~= methods_view(v@) + tail);
            }
        }
        p = q;
        i = i + 1;
    }
    proof {
        assert(methods_view(v@) + Seq::<MemberView>::empty() =~= methods_view(v@));
    }
    Ok((v, p))
}

/// Appends the bytes of a member with the parts given.
fn write_member_parts(
    out: &mut Vec<u8>,
    pool: &ConstantPool,
    access_flags: &AccessFlags,
    name_index: &ConstantPoolIndex,
    descriptor_index: &ConstantPoolIndex,
    attributes: &Vec<Attribute>,
) -> (r: Result<(), Flaw>)
    ensures
        appended(
            r,
            enc_member(
                pool@,
                member_of(*access_flags, *name_index, *descriptor_index, attrs_view(attributes@)),
            ),
            old(out)@,
            final(out)@,
        ),
{
    let ghost start = out@;
    if name_index.idx > 0xFFFF || descriptor_index.idx > 0xFFFF {
        return Err(Flaw::IndexOutOfRange);
    }
    put_u16(out, access_flags.flags);
    put_u16(out, name_index.idx as u16);
    put_u16(out, descriptor_index.idx as u16);
    let ghost flags = be16(access_flags.flags);
    let ghost name = be16(name_index.idx as u16);
    let ghost descriptor = be16(descriptor_index.idx as u16);
    write_attrs(out, pool, attributes)?;
    proof {
        let nested = enc_attrs(pool@, attrs_view(attributes@))->Ok_0;
        assert(start + flags + name + descriptor + nested =~= start + (flags + (name + (descriptor
            + nested))));
    }
    Ok(())
}

/// After the members before `i`, whose bytes are `acc`, the one at `i`
/// has the encoding given.
proof fn lemma_enc_member_list_step(
    pool: Seq<ConstantView>,
    items: Seq<MemberView>,
    i: int,
    acc: Seq<u8>,
)
    requires
        0 <= i < items.len(),
        enc_member_list(pool, items, 0) == then(Ok(acc), enc_member_list(pool, items, i)),
    ensures
        match enc_member(pool, items[i]) {
            Ok(bytes) => enc_member_list(pool, items, 0) == then(
                Ok(acc + bytes),
                enc_member_list(pool, items, i + 1),
            ),
            Err(f) => enc_member_list(pool, items, 0) == Err::<Seq<u8>, Flaw>(f),
        },
{
    if let Ok(bytes) = enc_member(pool, items[i]) {
        if let Ok(rest) = enc_member_list(pool, items, i + 1) {
            assert(acc + (bytes + rest) =~= (acc + bytes) + rest);
        }
    }
}

/// Appends a sixteen-bit count and the fields of `items`.
pub fn write_fields(out: &mut Vec<u8>, pool: &ConstantPool, items: &Vec<Field>) -> (r: Result<
    (),
    Flaw,
>)
    ensures
        appended(r, enc_members(pool@, fields_view(items@)), old(out)@, final(out)@),
{
    if items.len() > 0xFFFF {
        return Err(Flaw::CountOutOfRange);
    }
    let ghost views = fields_view(items@);
    put_u16(out, items.len() as u16);
    let ghost start = out@;
    let ghost mut acc: Seq<u8> = Seq::empty();
    let mut i: usize = 0;
    proof {
        if let Ok(t) = enc_member_list(pool@, views, 0) {
            assert(acc + t =~= t);
        }
        assert(start + acc =~= start);
    }
    while i < items.len()
        invariant
            i <= items.len(),
            items.len() <= 0xFFFF,
            views == fields_view(items@),
            out@ == start + acc,
            enc_member_list(pool@, views, 0) == then(Ok(acc), enc_member_list(pool@, views, i as int)),
        decreases items.len() - i,
    {
        proof {
            lemma_enc_member_list_step(pool@, views, i as int, acc);
            assert(views[i as int] == items@[i as int]@);
        }
        let x = &items[i];
        write_member_parts(out, pool, &x.access_flags, &x.name_index, &x.descriptor_index, &x.attributes)?;
        proof {
            let e = enc_member(pool@, views[i as int])->Ok_0;
            assert(out@ =~= start + (acc + e));
            acc = acc + e;
        }
        i = i + 1;
    }
    proof {
        assert(acc + Seq::<u8>::empty() =~= acc);
        assert(start + acc =~= old(out)@ + (be16(views.len() as u16) + acc));
    }
    Ok(())
}

/// Appends a sixteen-bit count and the methods of `items`.
pub fn write_methods(out: &mut Vec<u8>, pool: &ConstantPool, items: &Vec<Method>) -> (r: Result<
    (),
    Flaw,
>)
    ensures
        appended(r, enc_members(pool@, methods_view(items@)), old(out)@, final(out)@),
{
    if items.len() > 0xFFFF {
        return Err(Flaw::CountOutOfRange);
    }
    let ghost views = methods_view(items@);
    put_u16(out, items.len() as u16);
    let ghost start = out@;
    let ghost mut acc: Seq<u8> = Seq::empty();
    let mut i: usize = 0;
    proof {
        if let Ok(t) = enc_member_list(pool@, views, 0) {
            assert(acc + t =~= t);
        }
        assert(start + acc =~= start);
    }
    while i < items.len()
        invariant
            i <= items.len(),
            items.len() <= 0xFFFF,
            views == methods_view(items@),
            out@ == start + acc,
            enc_member_list(pool@, views, 0) == then(Ok(acc), enc_member_list(pool@, views, i as int)),
        decreases items.len() - i,
    {
        proof {
            lemma_enc_member_list_step(pool@, views, i as int, acc);
            assert(views[i as int] == items@[i as int]@);
        }
        let x = &items[i];
        write_member_parts(out, pool, &x.access_flags, &x.name_index, &x.descriptor_index, &x.attributes)?;
        proof {
            let e = enc_member(pool@, views[i as int])->Ok_0;
            assert(out@ =~= start + (acc + e));
            acc = acc + e;
        }
        i = i + 1;
    }
    proof {
        assert(acc + Seq::<u8>::empty() =~= acc);
        assert(start + acc =~= old(out)@ + (be16(views.len() as u16) + acc));
    }
    Ok(())
}

/// A member that was written is read back, and the reader stops where its
/// bytes end.
pub proof fn lemma_member_round_trip(pool: Seq<ConstantView>, m: MemberView, s: Seq<u8>, pos: int, end: int)
    requires
        enc_member(pool, m) matches Ok(e) && occurs(s, pos, e) && pos + e.len() <= end,
    ensures
        dec_member(pool, s, pos, end) == Ok::<(MemberView, int), Fault>(
            (m, pos + enc_member(pool, m)->Ok_0.len()),
        ),
{
    let flags = be16(m.access_flags.flags);
    let name = enc_index(m.name_index)->Ok_0;
    let descriptor = enc_index(m.descriptor_index)->Ok_0;
    let nested = enc_attrs(pool, m.attributes)->Ok_0;
    lemma_occurs_split(s, pos, flags, name + (descriptor + nested));
    lemma_occurs_split(s, pos + 2, name, descriptor + nested);
    lemma_occurs_split(s, pos + 4, descriptor, nested);
    lemma_occurs_u16(s, pos, end, m.access_flags.flags);
    lemma_occurs_u16(s, pos + 2, end, m.name_index.idx as u16);
    lemma_occurs_u16(s, pos + 4, end, m.descriptor_index.idx as u16);
    lemma_attrs_round_trip(pool, m.attributes, s, pos + 6, end);
}

/// A member that was read has an encoding, as long as the bytes that were
/// read.
pub proof fn lemma_member_encodable(pool: Seq<ConstantView>, s: Seq<u8>, pos: int, end: int)
    requires
        in_region(s, pos, end),
        dec_member(pool, s, pos, end) is Ok,
    ensures
        ({
            let (m, p) = dec_member(pool, s, pos, end)->Ok_0;
            &&& pos <= p <= end
            &&& enc_member(pool, m) matches Ok(e) && e.len() == p - pos
        }),
{
    lemma_attrs_encodable(pool, s, pos + 6, end);
}

/// The members of `x + y` from the end of `x` on are those of `y`.
proof fn lemma_enc_member_list_shift(
    pool: Seq<ConstantView>,
    x: Seq<MemberView>,
    y: Seq<MemberView>,
    i: int,
)
    requires
        0 <= i,
    ensures
        enc_member_list(pool, x + y, x.len() + i) == enc_member_list(pool, y, i),
    decreases y.len() - i,
{
    if i < y.len() {
        assert((x + y)[x.len() + i] == y[i]);
        lemma_enc_member_list_shift(pool, x, y, i + 1);
    }
}

/// Members that were written are read back.
proof fn lemma_member_list_round_trip(
    pool: Seq<ConstantView>,
    items: Seq<MemberView>,
    i: int,
    s: Seq<u8>,
    pos: int,
    end: int,
)
    requires
        0 <= i <= items.len(),
        enc_member_list(pool, items, i) matches Ok(e) && occurs(s, pos, e) && pos + e.len() <= end,
    ensures
        dec_member_list(pool, s, pos, end, items.len() - i) == Ok::<(Seq<MemberView>, int), Fault>(
            (items.skip(i), pos + enc_member_list(pool, items, i)->Ok_0.len()),
        ),
    decreases items.len() - i,
{
    if i >= items.len() {
        assert(items.skip(i) =~= Seq::empty());
    } else {
        let first = enc_member(pool, items[i])->Ok_0;
        let rest = enc_member_list(pool, items, i + 1)->Ok_0;
        lemma_occurs_split(s, pos, first, rest);
        lemma_member_round_trip(pool, items[i], s, pos, end);
        lemma_member_list_round_trip(pool, items, i + 1, s, pos + first.len(), end);
        assert(items.skip(i) =~= seq![items[i]] + items.skip(i + 1));
    }
}

/// A counted list of members that was written is read back.
pub proof fn lemma_members_round_trip(
    pool: Seq<ConstantView>,
    items: Seq<MemberView>,
    s: Seq<u8>,
    pos: int,
    end: int,
)
    requires
        enc_members(pool, items) matches Ok(e) && occurs(s, pos, e) && pos + e.len() <= end,
    ensures
        dec_members(pool, s, pos, end) == Ok::<(Seq<MemberView>, int), Fault>(
            (items, pos + enc_members(pool, items)->Ok_0.len()),
        ),
{
    let body = enc_member_list(pool, items, 0)->Ok_0;
    lemma_occurs_split(s, pos, be16(items.len() as u16), body);
    lemma_occurs_u16(s, pos, end, items.len() as u16);
    lemma_member_list_round_trip(pool, items, 0, s, pos + 2, end);
    assert(items.skip(0) =~= items);
}

/// Members that were read are as many as were asked for and have an
/// encoding, as long as the bytes that were read.
proof fn lemma_member_list_encodable(pool: Seq<ConstantView>, s: Seq<u8>, pos: int, end: int, n: int)
    requires
        in_region(s, pos, end),
        0 <= n,
        dec_member_list(pool, s, pos, end, n) is Ok,
    ensures
        ({
            let (items, p) = dec_member_list(pool, s, pos, end, n)->Ok_0;
            &&& items.len() == n
            &&& pos <= p <= end
            &&& enc_member_list(pool, items, 0) matches Ok(e) && e.len() == p - pos
        }),
    decreases n,
{
    if n > 0 {
        let (m, p) = dec_member(pool, s, pos, end)->Ok_0;
        lemma_member_encodable(pool, s, pos, end);
        lemma_member_list_encodable(pool, s, p, end, n - 1);
        let (rest, _) = dec_member_list(pool, s, p, end, n - 1)->Ok_0;
        let items = seq![m] + rest;
        assert(items[0] == m);
        lemma_enc_member_list_shift(pool, seq![m], rest, 0);
    }
}

/// A counted list of members that was read has an encoding, as long as
/// the bytes that were read.
pub proof fn lemma_members_encodable(pool: Seq<ConstantView>, s: Seq<u8>, pos: int, end: int)
    requires
        in_region(s, pos, end),
        dec_members(pool, s, pos, end) is Ok,
    ensures
        ({
            let (items, p) = dec_members(pool, s, pos, end)->Ok_0;
            &&& pos <= p <= end
            &&& enc_members(pool, items) matches Ok(e) && e.len() == p - pos
        }),
{
    lemma_member_list_encodable(pool, s, pos + 2, end, word16(s, pos) as int);
}

} // verus!
