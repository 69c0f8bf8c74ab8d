//! Records of fixed layout, and lists of them.
//!
//! Most tables of a class file are a count followed by as many records of
//! one kind. A [`Record`] says how one record is written and read; the
//! lists are written and read here, once for all kinds.
use vstd::prelude::*;
use crate::bytecode::wire::Fault;
use crate::bytecode::wire::Flaw;
use crate::bytecode::wire::agrees;
use crate::bytecode::wire::agrees_plain;
use crate::bytecode::wire::appended;
use crate::bytecode::wire::be16;
use crate::bytecode::wire::get_u16;
use crate::bytecode::wire::get_u8;
use crate::bytecode::wire::in_region;
use crate::bytecode::wire::lemma_occurs_join;
use crate::bytecode::wire::lemma_occurs_split;
use crate::bytecode::wire::lemma_occurs_u16;
use crate::bytecode::wire::lemma_occurs_u8;
use crate::bytecode::wire::lemma_u16_stands;
use crate::bytecode::wire::lemma_u8_stands;
use crate::bytecode::wire::occurs;
use crate::bytecode::wire::prepend;
use crate::bytecode::wire::put_u16;
use crate::bytecode::wire::put_u8;
use crate::bytecode::wire::take_u16;
use crate::bytecode::wire::take_u8;
use crate::bytecode::wire::then;

verus! {

broadcast use crate::bytecode::wire::group_wire_lengths;

/// A value with an encoding of its own, which a decoder reads back.
pub trait Record: Sized {
    /// The bytes of the record, or why it has none.
    spec fn enc(self) -> Result<Seq<u8>, Flaw>;

    /// The record that starts at `pos`, and where it ends.
    spec fn dec(s: Seq<u8>, pos: int, end: int) -> Result<(Self, int), Fault>;

    /// A record that was written is read back, and the reader stops where
    /// its bytes end.
    proof fn lemma_round_trip(self, s: Seq<u8>, pos: int, end: int)
        requires
            self.enc() matches Ok(e) && occurs(s, pos, e) && pos + e.len() <= end,
        ensures
            Self::dec(s, pos, end) == Ok::<(Self, int), Fault>((self, pos + self.enc()->Ok_0.len())),
    ;

    /// A record that was read has an encoding, as long as the bytes that
    /// were read.
    proof fn lemma_encodable(s: Seq<u8>, pos: int, end: int)
        requires
            in_region(s, pos, end),
            Self::dec(s, pos, end) is Ok,
        ensures
            ({
                let (v, p) = Self::dec(s, pos, end)->Ok_0;
                &&& pos <= p <= end
                &&& v.enc() matches Ok(e) && e.len() == p - pos
            }),
    ;

    /// The bytes that a record was read from are the bytes of the record.
    proof fn lemma_exact(s: Seq<u8>, pos: int, end: int)
        requires
            in_region(s, pos, end),
            Self::dec(s, pos, end) is Ok,
        ensures
            ({
                let (v, p) = Self::dec(s, pos, end)->Ok_0;
                v.enc() matches Ok(e) && occurs(s, pos, e)
            }),
    ;
}

/// A record that executable code reads and writes.
pub trait Wire: Record {
    /// Reads the record that starts at `pos`.
    fn read(b: &[u8], pos: usize, end: usize) -> (r: Result<(Self, usize), Fault>)
        requires
            in_region(b@, pos as int, end as int),
        ensures
            agrees_plain(r, Self::dec(b@, pos as int, end as int), pos, end),
    ;

    /// Appends the bytes of the record.
    fn write(&self, out: &mut Vec<u8>) -> (r: Result<(), Flaw>)
        ensures
            appended(r, self.enc(), old(out)@, final(out)@),
    ;
}

/// The bytes of the records of `items`, in order.
pub open spec fn enc_all<T: Record>(items: Seq<T>) -> Result<Seq<u8>, Flaw>
    decreases items.len(),
{
    if items.len() == 0 {
        Ok(Seq::empty())
    } else {
        then(items[0].enc(), enc_all(items.skip(1)))
    }
}

/// The `n` records that start at `pos`.
pub open spec fn dec_all<T: Record>(s: Seq<u8>, pos: int, end: int, n: int) -> Result<
    (Seq<T>, int),
    Fault,
>
    decreases n,
{
    if n <= 0 {
        Ok((Seq::empty(), pos))
    } else {
        match T::dec(s, pos, end) {
            Err(e) => Err(e),
            Ok((v, p)) => prepend(seq![v], dec_all::<T>(s, p, end, n - 1)),
        }
    }
}

/// A sixteen-bit count and as many records.
pub open spec fn enc_counted<T: Record>(items: Seq<T>) -> Result<Seq<u8>, Flaw> {
    if items.len() <= 0xFFFF {
        then(Ok(be16(items.len() as u16)), enc_all(items))
    } else {
        Err(Flaw::CountOutOfRange)
    }
}

/// A sixteen-bit count and as many records, from `pos` on.
pub open spec fn dec_counted<T: Record>(s: Seq<u8>, pos: int, end: int) -> Result<(Seq<T>, int), Fault> {
    match take_u16(s, pos, end) {
        Err(e) => Err(e),
        Ok((n, p)) => dec_all::<T>(s, p, end, n as int),
    }
}

/// Records that were written are read back.
pub proof fn lemma_all_round_trip<T: Record>(items: Seq<T>, s: Seq<u8>, pos: int, end: int)
    requires
        enc_all(items) matches Ok(e) && occurs(s, pos, e) && pos + e.len() <= end,
    ensures
        dec_all::<T>(s, pos, end, items.len() as int) == Ok::<(Seq<T>, int), Fault>(
            (items, pos + enc_all(items)->Ok_0.len()),
        ),
    decreases items.len(),
{
    if items.len() > 0 {
        let first = items[0].enc()->Ok_0;
        let rest = enc_all(items.skip(1))->Ok_0;
        lemma_occurs_split(s, pos, first, rest);
        items[0].lemma_round_trip(s, pos, end);
        lemma_all_round_trip(items.skip(1), s, pos + first.len(), end);
        assert(seq![items[0]] + items.skip(1) =~= items);
    } else {
        assert(items =~= Seq::empty());
    }
}

/// Records that were read are as many as were asked for and have an
/// encoding, as long as the bytes that were read.
pub proof fn lemma_all_encodable<T: Record>(s: Seq<u8>, pos: int, end: int, n: int)
    requires
        in_region(s, pos, end),
        0 <= n,
        dec_all::<T>(s, pos, end, n) is Ok,
    ensures
        ({
            let (items, p) = dec_all::<T>(s, pos, end, n)->Ok_0;
            &&& items.len() == n
            &&& pos <= p <= end
            &&& enc_all(items) matches Ok(e) && e.len() == p - pos
        }),
    decreases n,
{
    if n > 0 {
        let (v, p) = T::dec(s, pos, end)->Ok_0;
        T::lemma_encodable(s, pos, end);
        lemma_all_encodable::<T>(s, p, end, n - 1);
        let (rest, _) = dec_all::<T>(s, p, end, n - 1)->Ok_0;
        let items = seq![v] + rest;
        assert(items.skip(1) =~= rest);
        assert(items[0] == v);
    }
}

/// A counted list that was written is read back.
pub proof fn lemma_counted_round_trip<T: Record>(items: Seq<T>, s: Seq<u8>, pos: int, end: int)
    requires
        enc_counted(items) matches Ok(e) && occurs(s, pos, e) && pos + e.len() <= end,
    ensures
        dec_counted::<T>(s, pos, end) == Ok::<(Seq<T>, int), Fault>(
            (items, pos + enc_counted(items)->Ok_0.len()),
        ),
{
    let body = enc_all(items)->Ok_0;
    lemma_occurs_split(s, pos, be16(items.len() as u16), body);
    lemma_occurs_u16(s, pos, end, items.len() as u16);
    lemma_all_round_trip(items, s, pos + 2, end);
}

/// A counted list that was read has an encoding, as long as the bytes that
/// were read.
pub proof fn lemma_counted_encodable<T: Record>(s: Seq<u8>, pos: int, end: int)
    requires
        in_region(s, pos, end),
        dec_counted::<T>(s, pos, end) is Ok,
    ensures
        ({
            let (items, p) = dec_counted::<T>(s, pos, end)->Ok_0;
            &&& pos <= p <= end
            &&& enc_counted(items) matches Ok(e) && e.len() == p - pos
        }),
{
    let (n, p) = take_u16(s, pos, end)->Ok_0;
    lemma_all_encodable::<T>(s, p, end, n as int);
}

/// After the first `i` records, whose bytes are `acc`, the next one has
/// the encoding `e`.
pub proof fn lemma_enc_all_step<T: Record>(items: Seq<T>, i: int, acc: Seq<u8>)
    requires
        0 <= i < items.len(),
        enc_all(items) == then(Ok(acc), enc_all(items.skip(i))),
    ensures
        match items[i].enc() {
            Ok(bytes) => enc_all(items) == then(Ok(acc + bytes), enc_all(items.skip(i + 1))),
            Err(f) => enc_all(items) == Err::<Seq<u8>, Flaw>(f),
        },
{
    let tail = items.skip(i);
    assert(tail[0] == items[i]);
    assert(tail.skip(1) =~= items.skip(i + 1));
    if let Ok(bytes) = items[i].enc() {
        if let Ok(rest) = enc_all(items.skip(i + 1)) {
            assert(acc + (bytes + rest) =~= (acc + bytes) + rest);
        }
    }
}

/// Reads the `n` records that start at `pos`.
pub fn read_all<T: Wire>(b: &[u8], pos: usize, end: usize, n: usize) -> (r: Result<
    (Vec<T>, usize),
    Fault,
>)
    requires
        in_region(b@, pos as int, end as int),
    ensures
        agrees(r, dec_all::<T>(b@, pos as int, end as int, n as int), pos, end),
{
    let mut v: Vec<T> = Vec::new();
    let mut p: usize = pos;
    let mut i: usize = 0;
    while i < n
        invariant
            i <= n,
            pos <= p,
            in_region(b@, p as int, end as int),
            dec_all::<T>(b@, pos as int, end as int, n as int) == prepend(
                v@,
                dec_all::<T>(b@, p as int, end as int, n - i),
            ),
        decreases n - i,
    {
        let ghost before = v@;
        let (x, q) = T::read(b, p, end)?;
        v.push(x);
        proof {
            if let Ok((tail, _)) = dec_all::<T>(b@, q as int, end as int, n - i - 1) {
                assert(before + (seq![x] + tail) =~= v@ + tail);
            }
        }
        p = q;
        i = i + 1;
    }
    proof {
        assert(v@ + Seq::<T>::empty() =~= v@);
    }
    Ok((v, p))
}

/// Appends the bytes of the records of `items`, in order.
pub fn write_all<T: Wire>(out: &mut Vec<u8>, items: &Vec<T>) -> (r: Result<(), Flaw>)
    ensures
        appended(r, enc_all(items@), old(out)@, final(out)@),
{
    let ghost start = out@;
    let ghost mut acc: Seq<u8> = Seq::empty();
    let mut i: usize = 0;
    proof {
        assert(items@.skip(0) =~= items@);
        if let Ok(t) = enc_all(items@) {
            assert(acc + t =~= t);
        }
        assert(start + acc =~= start);
    }
    while i < items.len()
        invariant
            i <= items.len(),
            out@ == start + acc,
            enc_all(items@) == then(Ok(acc), enc_all(items@.skip(i as int))),
        decreases items.len() - i,
    {
        proof {
            lemma_enc_all_step(items@, i as int, acc);
        }
        items[i].write(out)?;
        proof {
            let e = items@[i as int].enc()->Ok_0;
            assert(out@ =~= start + (acc + e));
            acc = acc + e;
        }
        i = i + 1;
    }
    proof {
        assert(items@.skip(items@.len() as int) =~= Seq::empty());
        assert(acc + Seq::<u8>::empty() =~= acc);
    }
    Ok(())
}

/// Reads a sixteen-bit count and as many records.
pub fn read_counted<T: Wire>(b: &[u8], pos: usize, end: usize) -> (r: Result<(Vec<T>, usize), Fault>)
    requires
        in_region(b@, pos as int, end as int),
    ensures
        agrees(r, dec_counted::<T>(b@, pos as int, end as int), pos, end),
{
    let (n, p) = get_u16(b, pos, end)?;
    read_all::<T>(b, p, end, n as usize)
}

/// Appends a sixteen-bit count and the records of `items`.
pub fn write_counted<T: Wire>(out: &mut Vec<u8>, items: &Vec<T>) -> (r: Result<(), Flaw>)
    ensures
        appended(r, enc_counted(items@), old(out)@, final(out)@),
{
    if items.len() > 0xFFFF {
        return Err(Flaw::CountOutOfRange);
    }
    put_u16(out, items.len() as u16);
    let ghost mid = out@;
    write_all(out, items)?;
    proof {
        let e = enc_all(items@)->Ok_0;
        assert(mid + e =~= old(out)@ + (be16(items@.len() as u16) + e));
    }
    Ok(())
}

/// An eight-bit count and as many records.
pub open spec fn enc_counted8<T: Record>(items: Seq<T>) -> Result<Seq<u8>, Flaw> {
    if items.len() <= 0xFF {
        then(Ok(seq![items.len() as u8]), enc_all(items))
    } else {
        Err(Flaw::CountOutOfRange)
    }
}

/// An eight-bit count and as many records, from `pos` on.
pub open spec fn dec_counted8<T: Record>(s: Seq<u8>, pos: int, end: int) -> Result<(Seq<T>, int), Fault> {
    match take_u8(s, pos, end) {
        Err(e) => Err(e),
        Ok((n, p)) => dec_all::<T>(s, p, end, n as int),
    }
}

/// A list with an eight-bit count that was written is read back.
pub proof fn lemma_counted8_round_trip<T: Record>(items: Seq<T>, s: Seq<u8>, pos: int, end: int)
    requires
        enc_counted8(items) matches Ok(e) && occurs(s, pos, e) && pos + e.len() <= end,
    ensures
        dec_counted8::<T>(s, pos, end) == Ok::<(Seq<T>, int), Fault>(
            (items, pos + enc_counted8(items)->Ok_0.len()),
        ),
{
    let body = enc_all(items)->Ok_0;
    lemma_occurs_split(s, pos, seq![items.len() as u8], body);
    lemma_occurs_u8(s, pos, end, items.len() as u8);
    lemma_all_round_trip(items, s, pos + 1, end);
}

/// A list with an eight-bit count that was read has an encoding, as long
/// as the bytes that were read.
pub proof fn lemma_counted8_encodable<T: Record>(s: Seq<u8>, pos: int, end: int)
    requires
        in_region(s, pos, end),
        dec_counted8::<T>(s, pos, end) is Ok,
    ensures
        ({
            let (items, p) = dec_counted8::<T>(s, pos, end)->Ok_0;
            &&& pos <= p <= end
            &&& enc_counted8(items) matches Ok(e) && e.len() == p - pos
        }),
{
    let (n, p) = take_u8(s, pos, end)->Ok_0;
    lemma_all_encodable::<T>(s, p, end, n as int);
}

/// Reads an eight-bit count and as many records.
pub fn read_counted8<T: Wire>(b: &[u8], pos: usize, end: usize) -> (r: Result<(Vec<T>, usize), Fault>)
    requires
        in_region(b@, pos as int, end as int),
    ensures
        agrees(r, dec_counted8::<T>(b@, pos as int, end as int), pos, end),
{
    let (n, p) = get_u8(b, pos, end)?;
    read_all::<T>(b, p, end, n as usize)
}

/// Appends an eight-bit count and the records of `items`.
pub fn write_counted8<T: Wire>(out: &mut Vec<u8>, items: &Vec<T>) -> (r: Result<(), Flaw>)
    ensures
        appended(r, enc_counted8(items@), old(out)@, final(out)@),
{
    if items.len() > 0xFF {
        return Err(Flaw::CountOutOfRange);
    }
    put_u8(out, items.len() as u8);
    let ghost mid = out@;
    write_all(out, items)?;
    proof {
        let e = enc_all(items@)->Ok_0;
        assert(mid + e =~= old(out)@ + (seq![items@.len() as u8] + e));
    }
    Ok(())
}

/// The bytes that records were read from are the bytes of the records.
pub proof fn lemma_all_exact<T: Record>(s: Seq<u8>, pos: int, end: int, n: int)
    requires
        in_region(s, pos, end),
        0 <= n,
        dec_all::<T>(s, pos, end, n) is Ok,
    ensures
        ({
            let (items, p) = dec_all::<T>(s, pos, end, n)->Ok_0;
            enc_all(items) matches Ok(e) && occurs(s, pos, e)
        }),
    decreases n,
{
    if n > 0 {
        let (v, p) = T::dec(s, pos, end)->Ok_0;
        T::lemma_encodable(s, pos, end);
        T::lemma_exact(s, pos, end);
        lemma_all_encodable::<T>(s, p, end, n - 1);
        lemma_all_exact::<T>(s, p, end, n - 1);
        let (rest, _) = dec_all::<T>(s, p, end, n - 1)->Ok_0;
        let items = seq![v] + rest;
        assert(items.skip(1) =~= rest);
        assert(items[0] == v);
        lemma_occurs_join(s, pos, v.enc()->Ok_0, enc_all(rest)->Ok_0);
    }
}

/// The bytes that a counted list was read from are the bytes of the list.
pub proof fn lemma_counted_exact<T: Record>(s: Seq<u8>, pos: int, end: int)
    requires
        in_region(s, pos, end),
        dec_counted::<T>(s, pos, end) is Ok,
    ensures
        ({
            let (items, p) = dec_counted::<T>(s, pos, end)->Ok_0;
            enc_counted(items) matches Ok(e) && occurs(s, pos, e)
        }),
{
    let (n, p) = take_u16(s, pos, end)->Ok_0;
    lemma_all_encodable::<T>(s, p, end, n as int);
    lemma_all_exact::<T>(s, p, end, n as int);
    lemma_u16_stands(s, pos);
    let (items, _) = dec_all::<T>(s, p, end, n as int)->Ok_0;
    lemma_occurs_join(s, pos, be16(n), enc_all(items)->Ok_0);
}

/// The bytes that a list with an eight-bit count was read from are the
/// bytes of the list.
pub proof fn lemma_counted8_exact<T: Record>(s: Seq<u8>, pos: int, end: int)
    requires
        in_region(s, pos, end),
        dec_counted8::<T>(s, pos, end) is Ok,
    ensures
        ({
            let (items, p) = dec_counted8::<T>(s, pos, end)->Ok_0;
            enc_counted8(items) matches Ok(e) && occurs(s, pos, e)
        }),
{
    let (n, p) = take_u8(s, pos, end)->Ok_0;
    lemma_all_encodable::<T>(s, p, end, n as int);
    lemma_all_exact::<T>(s, p, end, n as int);
    lemma_u8_stands(s, pos);
    let (items, _) = dec_all::<T>(s, p, end, n as int)->Ok_0;
    lemma_occurs_join(s, pos, seq![n], enc_all(items)->Ok_0);
}

} // verus!
