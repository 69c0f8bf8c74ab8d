//! The records of the tables of a class file.
use vstd::prelude::*;
use crate::bytecode::classfile::AccessFlags;
use crate::bytecode::classfile::BootstrapMethod;
use crate::bytecode::classfile::BootstrapMethodView;
use crate::bytecode::classfile::ConstantPoolIndex;
use crate::bytecode::classfile::ExceptionHandler;
use crate::bytecode::classfile::InnerClass;
use crate::bytecode::classfile::LineNumberTable;
use crate::bytecode::classfile::LocalVariableTable;
use crate::bytecode::classfile::LocalVariableTableType;
use crate::bytecode::classfile::MethodParameter;
use crate::bytecode::classfile::TypePathKind;
use crate::bytecode::classfile::VerificationType;
use crate::bytecode::classfile::bootstrap_view;
use crate::bytecode::pool::dec_index;
use crate::bytecode::pool::enc_index;
use crate::bytecode::pool::lemma_index_encodable;
use crate::bytecode::pool::lemma_index_round_trip;
use crate::bytecode::pool::read_index;
use crate::bytecode::pool::write_index;
use crate::bytecode::record::Record;
use crate::bytecode::record::Wire;
use crate::bytecode::record::dec_all;
use crate::bytecode::record::dec_counted;
use crate::bytecode::record::enc_all;
use crate::bytecode::record::enc_counted;
use crate::bytecode::record::lemma_counted_encodable;
use crate::bytecode::record::lemma_counted_exact;
use crate::bytecode::record::lemma_counted_round_trip;
use crate::bytecode::record::lemma_enc_all_step;
use crate::bytecode::record::read_counted;
use crate::bytecode::record::write_counted;
use crate::bytecode::wire::Fault;
use crate::bytecode::wire::FaultKind;
use crate::bytecode::wire::Flaw;
use crate::bytecode::wire::agrees;
use crate::bytecode::wire::appended;
use crate::bytecode::wire::be16;
use crate::bytecode::wire::be32;
use crate::bytecode::wire::bits32;
use crate::bytecode::wire::fault;
use crate::bytecode::wire::get_u16;
use crate::bytecode::wire::get_u32;
use crate::bytecode::wire::get_u8;
use crate::bytecode::wire::i32_bits;
use crate::bytecode::wire::i32_of_bits;
use crate::bytecode::wire::in_region;
use crate::bytecode::wire::lemma_bits_signed32;
use crate::bytecode::wire::lemma_occurs_join;
use crate::bytecode::wire::lemma_occurs_split;
use crate::bytecode::wire::lemma_occurs_u16;
use crate::bytecode::wire::lemma_signed_bits32;
use crate::bytecode::wire::lemma_u16_stands;
use crate::bytecode::wire::lemma_u32_stands;
use crate::bytecode::wire::lemma_u8_stands;
use crate::bytecode::wire::lemma_word32;
use crate::bytecode::wire::peek_u16;
use crate::bytecode::wire::prepend;
use crate::bytecode::wire::put_u16;
use crate::bytecode::wire::put_u32;
use crate::bytecode::wire::put_u8;
use crate::bytecode::wire::signed32;
use crate::bytecode::wire::take_u16;
use crate::bytecode::wire::take_u8;
use crate::bytecode::wire::then;
use crate::bytecode::wire::truncated;
use crate::bytecode::wire::word16;
use crate::bytecode::wire::word32;

verus! {

broadcast use crate::bytecode::wire::group_wire_lengths;

/// A pool index: two bytes.
impl Record for ConstantPoolIndex {
    open spec fn enc(self) -> Result<Seq<u8>, Flaw> {
        enc_index(self)
    }

    open spec fn dec(s: Seq<u8>, pos: int, end: int) -> Result<(Self, int), Fault> {
        dec_index(s, pos, end)
    }

    proof fn lemma_round_trip(self, s: Seq<u8>, pos: int, end: int) {
        lemma_index_round_trip(self, s, pos, end);
    }

    proof fn lemma_encodable(s: Seq<u8>, pos: int, end: int) {
        lemma_index_encodable(s, pos, end);
    }

    proof fn lemma_exact(s: Seq<u8>, pos: int, end: int) {
        lemma_u16_stands(s, pos);
    }
}

impl Wire for ConstantPoolIndex {
    fn read(b: &[u8], pos: usize, end: usize) -> (r: Result<(Self, usize), Fault>) {
        read_index(b, pos, end)
    }

    fn write(&self, out: &mut Vec<u8>) -> (r: Result<(), Flaw>) {
        write_index(out, self)
    }
}

/// A pair of a `LOOKUPSWITCH`: the match and the offset, four bytes each.
impl Record for (i32, i32) {
    open spec fn enc(self) -> Result<Seq<u8>, Flaw> {
        Ok(be32(bits32(self.0)) + be32(bits32(self.1)))
    }

    open spec fn dec(s: Seq<u8>, pos: int, end: int) -> Result<(Self, int), Fault> {
        if pos + 8 <= end {
            Ok(((signed32(word32(s, pos)), signed32(word32(s, pos + 4))), pos + 8))
        } else {
            Err(truncated(pos))
        }
    }

    proof fn lemma_round_trip(self, s: Seq<u8>, pos: int, end: int) {
        lemma_occurs_split(s, pos, be32(bits32(self.0)), be32(bits32(self.1)));
        lemma_word32(s, pos, bits32(self.0));
        lemma_word32(s, pos + 4, bits32(self.1));
        lemma_signed_bits32(self.0);
        lemma_signed_bits32(self.1);
    }

    proof fn lemma_encodable(s: Seq<u8>, pos: int, end: int) {
    }

    proof fn lemma_exact(s: Seq<u8>, pos: int, end: int) {
        let m = word32(s, pos);
        let o = word32(s, pos + 4);
        lemma_u32_stands(s, pos);
        lemma_u32_stands(s, pos + 4);
        lemma_bits_signed32(m);
        lemma_bits_signed32(o);
        lemma_occurs_join(s, pos, be32(m), be32(o));
    }
}

impl Wire for (i32, i32) {
    fn read(b: &[u8], pos: usize, end: usize) -> (r: Result<(Self, usize), Fault>) {
        if end - pos >= 8 {
            let (m, p) = get_u32(b, pos, end)?;
            let (o, q) = get_u32(b, p, end)?;
            Ok(((i32_of_bits(m), i32_of_bits(o)), q))
        } else {
            Err(Fault { kind: FaultKind::Truncated, offset: pos })
        }
    }

    fn write(&self, out: &mut Vec<u8>) -> (r: Result<(), Flaw>) {
        put_u32(out, i32_bits(self.0));
        put_u32(out, i32_bits(self.1));
        assert(out@ =~= old(out)@ + (be32(bits32(self.0)) + be32(bits32(self.1))));
        Ok(())
    }
}

/// An entry of an exception table: three code offsets and the index of the class caught.
impl Record for ExceptionHandler {
    open spec fn enc(self) -> Result<Seq<u8>, Flaw> {
        if self.catch_type.idx <= 0xFFFF {
            Ok(be16(self.start_pc) + be16(self.end_pc) + be16(self.handler_pc)
                + be16(self.catch_type.idx as u16))
        } else {
            Err(Flaw::IndexOutOfRange)
        }
    }

    open spec fn dec(s: Seq<u8>, pos: int, end: int) -> Result<(Self, int), Fault> {
        if pos + 8 <= end {
            Ok(
                (
                    ExceptionHandler {
                        start_pc: word16(s, pos),
                        end_pc: word16(s, pos + 2),
                        handler_pc: word16(s, pos + 4),
                        catch_type: ConstantPoolIndex { idx: word16(s, pos + 6) as usize },
                    },
                    pos + 8,
                ),
            )
        } else {
            Err(truncated(pos))
        }
    }

    proof fn lemma_round_trip(self, s: Seq<u8>, pos: int, end: int) {
        let e = self.enc()->Ok_0;
        assert(s[pos + 0] == e[0]);
        assert(s[pos + 1] == e[1]);
        assert(s[pos + 2] == e[2]);
        assert(s[pos + 3] == e[3]);
        assert(s[pos + 4] == e[4]);
        assert(s[pos + 5] == e[5]);
        assert(s[pos + 6] == e[6]);
        assert(s[pos + 7] == e[7]);
    }

    proof fn lemma_encodable(s: Seq<u8>, pos: int, end: int) {
    }

    proof fn lemma_exact(s: Seq<u8>, pos: int, end: int) {
        lemma_u16_stands(s, pos);
        lemma_u16_stands(s, pos + 2);
        lemma_u16_stands(s, pos + 4);
        lemma_u16_stands(s, pos + 6);
        let w0 = be16(word16(s, pos));
        let w1 = be16(word16(s, pos + 2));
        let w2 = be16(word16(s, pos + 4));
        let w3 = be16(word16(s, pos + 6));
        lemma_occurs_join(s, pos, w0, w1);
        lemma_occurs_join(s, pos, w0 + w1, w2);
        lemma_occurs_join(s, pos, w0 + w1 + w2, w3);
    }
}

impl Wire for ExceptionHandler {
    fn read(b: &[u8], pos: usize, end: usize) -> (r: Result<(Self, usize), Fault>) {
        if end - pos >= 8 {
            let v0: u16 = peek_u16(b, pos);
            let v1: u16 = peek_u16(b, pos + 2);
            let v2: u16 = peek_u16(b, pos + 4);
            let v3: u16 = peek_u16(b, pos + 6);
            Ok(
                (
                    ExceptionHandler {
                    start_pc: v0,
                    end_pc: v1,
                    handler_pc: v2,
                    catch_type: ConstantPoolIndex { idx: v3 as usize },
                    },
                    pos + 8,
                ),
            )
        } else {
            Err(Fault { kind: FaultKind::Truncated, offset: pos })
        }
    }

    fn write(&self, out: &mut Vec<u8>) -> (r: Result<(), Flaw>) {
        if self.catch_type.idx > 0xFFFF {
            return Err(Flaw::IndexOutOfRange);
        }
        put_u16(out, self.start_pc);
        put_u16(out, self.end_pc);
        put_u16(out, self.handler_pc);
        put_u16(out, self.catch_type.idx as u16);
        assert(out@ =~= old(out)@ + (be16(self.start_pc) + be16(self.end_pc) + be16(self.handler_pc)
            + be16(self.catch_type.idx as u16)));
        Ok(())
    }
}

/// An entry of `InnerClasses`: three indices and the flags.
impl Record for InnerClass {
    open spec fn enc(self) -> Result<Seq<u8>, Flaw> {
        if self.inner_class_info_index.idx <= 0xFFFF && self.outer_class_info_index.idx <= 0xFFFF
            && self.inner_name_index.idx <= 0xFFFF {
            Ok(be16(self.inner_class_info_index.idx as u16)
                + be16(self.outer_class_info_index.idx as u16)
                + be16(self.inner_name_index.idx as u16) + be16(self.access_flags.flags))
        } else {
            Err(Flaw::IndexOutOfRange)
        }
    }

    open spec fn dec(s: Seq<u8>, pos: int, end: int) -> Result<(Self, int), Fault> {
        if pos + 8 <= end {
            Ok(
                (
                    InnerClass {
                        inner_class_info_index: ConstantPoolIndex { idx: word16(s, pos) as usize },
                        outer_class_info_index: ConstantPoolIndex { idx: word16(s, pos
                            + 2) as usize },
                        inner_name_index: ConstantPoolIndex { idx: word16(s, pos + 4) as usize },
                        access_flags: AccessFlags { flags: word16(s, pos + 6) },
                    },
                    pos + 8,
                ),
            )
        } else {
            Err(truncated(pos))
        }
    }

    proof fn lemma_round_trip(self, s: Seq<u8>, pos: int, end: int) {
        let e = self.enc()->Ok_0;
        assert(s[pos + 0] == e[0]);
        assert(s[pos + 1] == e[1]);
        assert(s[pos + 2] == e[2]);
        assert(s[pos + 3] == e[3]);
        assert(s[pos + 4] == e[4]);
        assert(s[pos + 5] == e[5]);
        assert(s[pos + 6] == e[6]);
        assert(s[pos + 7] == e[7]);
    }

    proof fn lemma_encodable(s: Seq<u8>, pos: int, end: int) {
    }

    proof fn lemma_exact(s: Seq<u8>, pos: int, end: int) {
        lemma_u16_stands(s, pos);
        lemma_u16_stands(s, pos + 2);
        lemma_u16_stands(s, pos + 4);
        lemma_u16_stands(s, pos + 6);
        let w0 = be16(word16(s, pos));
        let w1 = be16(word16(s, pos + 2));
        let w2 = be16(word16(s, pos + 4));
        let w3 = be16(word16(s, pos + 6));
        lemma_occurs_join(s, pos, w0, w1);
        lemma_occurs_join(s, pos, w0 + w1, w2);
        lemma_occurs_join(s, pos, w0 + w1 + w2, w3);
    }
}

impl Wire for InnerClass {
    fn read(b: &[u8], pos: usize, end: usize) -> (r: Result<(Self, usize), Fault>) {
        if end - pos >= 8 {
            let v0: u16 = peek_u16(b, pos);
            let v1: u16 = peek_u16(b, pos + 2);
            let v2: u16 = peek_u16(b, pos + 4);
            let v3: u16 = peek_u16(b, pos + 6);
            Ok(
                (
                    InnerClass {
                    inner_class_info_index: ConstantPoolIndex { idx: v0 as usize },
                    outer_class_info_index: ConstantPoolIndex { idx: v1 as usize },
                    inner_name_index: ConstantPoolIndex { idx: v2 as usize },
                    access_flags: AccessFlags { flags: v3 },
                    },
                    pos + 8,
                ),
            )
        } else {
            Err(Fault { kind: FaultKind::Truncated, offset: pos })
        }
    }

    fn write(&self, out: &mut Vec<u8>) -> (r: Result<(), Flaw>) {
        if self.inner_class_info_index.idx > 0xFFFF || self.outer_class_info_index.idx > 0xFFFF
            || self.inner_name_index.idx > 0xFFFF {
            return Err(Flaw::IndexOutOfRange);
        }
        put_u16(out, self.inner_class_info_index.idx as u16);
        put_u16(out, self.outer_class_info_index.idx as u16);
        put_u16(out, self.inner_name_index.idx as u16);
        put_u16(out, self.access_flags.flags);
        assert(out@ =~= old(out)@ + (be16(self.inner_class_info_index.idx as u16)
            + be16(self.outer_class_info_index.idx as u16) + be16(self.inner_name_index.idx as u16)
            + be16(self.access_flags.flags)));
        Ok(())
    }
}

/// An entry of `LineNumberTable`: a code offset and a line.
impl Record for LineNumberTable {
    open spec fn enc(self) -> Result<Seq<u8>, Flaw> {
        Ok(be16(self.start_pc) + be16(self.line_number))
    }

    open spec fn dec(s: Seq<u8>, pos: int, end: int) -> Result<(Self, int), Fault> {
        if pos + 4 <= end {
            Ok(
                (
                    LineNumberTable {
                        start_pc: word16(s, pos),
                        line_number: word16(s, pos + 2),
                    },
                    pos + 4,
                ),
            )
        } else {
            Err(truncated(pos))
        }
    }

    proof fn lemma_round_trip(self, s: Seq<u8>, pos: int, end: int) {
        let e = self.enc()->Ok_0;
        assert(s[pos + 0] == e[0]);
        assert(s[pos + 1] == e[1]);
        assert(s[pos + 2] == e[2]);
        assert(s[pos + 3] == e[3]);
    }

    proof fn lemma_encodable(s: Seq<u8>, pos: int, end: int) {
    }

    proof fn lemma_exact(s: Seq<u8>, pos: int, end: int) {
        lemma_u16_stands(s, pos);
        lemma_u16_stands(s, pos + 2);
        let w0 = be16(word16(s, pos));
        let w1 = be16(word16(s, pos + 2));
        lemma_occurs_join(s, pos, w0, w1);
    }
}

impl Wire for LineNumberTable {
    fn read(b: &[u8], pos: usize, end: usize) -> (r: Result<(Self, usize), Fault>) {
        if end - pos >= 4 {
            let v0: u16 = peek_u16(b, pos);
            let v1: u16 = peek_u16(b, pos + 2);
            Ok(
                (
                    LineNumberTable {
                    start_pc: v0,
                    line_number: v1,
                    },
                    pos + 4,
                ),
            )
        } else {
            Err(Fault { kind: FaultKind::Truncated, offset: pos })
        }
    }

    fn write(&self, out: &mut Vec<u8>) -> (r: Result<(), Flaw>) {
        put_u16(out, self.start_pc);
        put_u16(out, self.line_number);
        assert(out@ =~= old(out)@ + (be16(self.start_pc) + be16(self.line_number)));
        Ok(())
    }
}

/// An entry of `LocalVariableTable`.
impl Record for LocalVariableTable {
    open spec fn enc(self) -> Result<Seq<u8>, Flaw> {
        if self.name_index.idx <= 0xFFFF && self.descriptor_index.idx <= 0xFFFF {
            Ok(be16(self.start_pc) + be16(self.length) + be16(self.name_index.idx as u16)
                + be16(self.descriptor_index.idx as u16) + be16(self.index))
        } else {
            Err(Flaw::IndexOutOfRange)
        }
    }

    open spec fn dec(s: Seq<u8>, pos: int, end: int) -> Result<(Self, int), Fault> {
        if pos + 10 <= end {
            Ok(
                (
                    LocalVariableTable {
                        start_pc: word16(s, pos),
                        length: word16(s, pos + 2),
                        name_index: ConstantPoolIndex { idx: word16(s, pos + 4) as usize },
                        descriptor_index: ConstantPoolIndex { idx: word16(s, pos + 6) as usize },
                        index: word16(s, pos + 8),
                    },
                    pos + 10,
                ),
            )
        } else {
            Err(truncated(pos))
        }
    }

    proof fn lemma_round_trip(self, s: Seq<u8>, pos: int, end: int) {
        let e = self.enc()->Ok_0;
        assert(s[pos + 0] == e[0]);
        assert(s[pos + 1] == e[1]);
        assert(s[pos + 2] == e[2]);
        assert(s[pos + 3] == e[3]);
        assert(s[pos + 4] == e[4]);
        assert(s[pos + 5] == e[5]);
        assert(s[pos + 6] == e[6]);
        assert(s[pos + 7] == e[7]);
        assert(s[pos + 8] == e[8]);
        assert(s[pos + 9] == e[9]);
    }

    proof fn lemma_encodable(s: Seq<u8>, pos: int, end: int) {
    }

    proof fn lemma_exact(s: Seq<u8>, pos: int, end: int) {
        lemma_u16_stands(s, pos);
        lemma_u16_stands(s, pos + 2);
        lemma_u16_stands(s, pos + 4);
        lemma_u16_stands(s, pos + 6);
        lemma_u16_stands(s, pos + 8);
        let w0 = be16(word16(s, pos));
        let w1 = be16(word16(s, pos + 2));
        let w2 = be16(word16(s, pos + 4));
        let w3 = be16(word16(s, pos + 6));
        let w4 = be16(word16(s, pos + 8));
        lemma_occurs_join(s, pos, w0, w1);
        lemma_occurs_join(s, pos, w0 + w1, w2);
        lemma_occurs_join(s, pos, w0 + w1 + w2, w3);
        lemma_occurs_join(s, pos, w0 + w1 + w2 + w3, w4);
    }
}

impl Wire for LocalVariableTable {
    fn read(b: &[u8], pos: usize, end: usize) -> (r: Result<(Self, usize), Fault>) {
        if end - pos >= 10 {
            let v0: u16 = peek_u16(b, pos);
            let v1: u16 = peek_u16(b, pos + 2);
            let v2: u16 = peek_u16(b, pos + 4);
            let v3: u16 = peek_u16(b, pos + 6);
            let v4: u16 = peek_u16(b, pos + 8);
            Ok(
                (
                    LocalVariableTable {
                    start_pc: v0,
                    length: v1,
                    name_index: ConstantPoolIndex { idx: v2 as usize },
                    descriptor_index: ConstantPoolIndex { idx: v3 as usize },
                    index: v4,
                    },
                    pos + 10,
                ),
            )
        } else {
            Err(Fault { kind: FaultKind::Truncated, offset: pos })
        }
    }

    fn write(&self, out: &mut Vec<u8>) -> (r: Result<(), Flaw>) {
        if self.name_index.idx > 0xFFFF || self.descriptor_index.idx > 0xFFFF {
            return Err(Flaw::IndexOutOfRange);
        }
        put_u16(out, self.start_pc);
        put_u16(out, self.length);
        put_u16(out, self.name_index.idx as u16);
        put_u16(out, self.descriptor_index.idx as u16);
        put_u16(out, self.index);
        assert(out@ =~= old(out)@ + (be16(self.start_pc) + be16(self.length)
            + be16(self.name_index.idx as u16) + be16(self.descriptor_index.idx as u16)
            + be16(self.index)));
        Ok(())
    }
}

/// An entry of `LocalVariableTypeTable`.
impl Record for LocalVariableTableType {
    open spec fn enc(self) -> Result<Seq<u8>, Flaw> {
        if self.name_index.idx <= 0xFFFF && self.signature_index.idx <= 0xFFFF {
            Ok(be16(self.start_pc) + be16(self.length) + be16(self.name_index.idx as u16)
                + be16(self.signature_index.idx as u16) + be16(self.index))
        } else {
            Err(Flaw::IndexOutOfRange)
        }
    }

    open spec fn dec(s: Seq<u8>, pos: int, end: int) -> Result<(Self, int), Fault> {
        if pos + 10 <= end {
            Ok(
                (
                    LocalVariableTableType {
                        start_pc: word16(s, pos),
                        length: word16(s, pos + 2),
                        name_index: ConstantPoolIndex { idx: word16(s, pos + 4) as usize },
                        signature_index: ConstantPoolIndex { idx: word16(s, pos + 6) as usize },
                        index: word16(s, pos + 8),
                    },
                    pos + 10,
                ),
            )
        } else {
            Err(truncated(pos))
        }
    }

    proof fn lemma_round_trip(self, s: Seq<u8>, pos: int, end: int) {
        let e = self.enc()->Ok_0;
        assert(s[pos + 0] == e[0]);
        assert(s[pos + 1] == e[1]);
        assert(s[pos + 2] == e[2]);
        assert(s[pos + 3] == e[3]);
        assert(s[pos + 4] == e[4]);
        assert(s[pos + 5] == e[5]);
        assert(s[pos + 6] == e[6]);
        assert(s[pos + 7] == e[7]);
        assert(s[pos + 8] == e[8]);
        assert(s[pos + 9] == e[9]);
    }

    proof fn lemma_encodable(s: Seq<u8>, pos: int, end: int) {
    }

    proof fn lemma_exact(s: Seq<u8>, pos: int, end: int) {
        lemma_u16_stands(s, pos);
        lemma_u16_stands(s, pos + 2);
        lemma_u16_stands(s, pos + 4);
        lemma_u16_stands(s, pos + 6);
        lemma_u16_stands(s, pos + 8);
        let w0 = be16(word16(s, pos));
        let w1 = be16(word16(s, pos + 2));
        let w2 = be16(word16(s, pos + 4));
        let w3 = be16(word16(s, pos + 6));
        let w4 = be16(word16(s, pos + 8));
        lemma_occurs_join(s, pos, w0, w1);
        lemma_occurs_join(s, pos, w0 + w1, w2);
        lemma_occurs_join(s, pos, w0 + w1 + w2, w3);
        lemma_occurs_join(s, pos, w0 + w1 + w2 + w3, w4);
    }
}

impl Wire for LocalVariableTableType {
    fn read(b: &[u8], pos: usize, end: usize) -> (r: Result<(Self, usize), Fault>) {
        if end - pos >= 10 {
            let v0: u16 = peek_u16(b, pos);
            let v1: u16 = peek_u16(b, pos + 2);
            let v2: u16 = peek_u16(b, pos + 4);
            let v3: u16 = peek_u16(b, pos + 6);
            let v4: u16 = peek_u16(b, pos + 8);
            Ok(
                (
                    LocalVariableTableType {
                    start_pc: v0,
                    length: v1,
                    name_index: ConstantPoolIndex { idx: v2 as usize },
                    signature_index: ConstantPoolIndex { idx: v3 as usize },
                    index: v4,
                    },
                    pos + 10,
                ),
            )
        } else {
            Err(Fault { kind: FaultKind::Truncated, offset: pos })
        }
    }

    fn write(&self, out: &mut Vec<u8>) -> (r: Result<(), Flaw>) {
        if self.name_index.idx > 0xFFFF || self.signature_index.idx > 0xFFFF {
            return Err(Flaw::IndexOutOfRange);
        }
        put_u16(out, self.start_pc);
        put_u16(out, self.length);
        put_u16(out, self.name_index.idx as u16);
        put_u16(out, self.signature_index.idx as u16);
        put_u16(out, self.index);
        assert(out@ =~= old(out)@ + (be16(self.start_pc) + be16(self.length)
            + be16(self.name_index.idx as u16) + be16(self.signature_index.idx as u16)
            + be16(self.index)));
        Ok(())
    }
}

/// An entry of `MethodParameters`: the index of the name and the flags.
impl Record for MethodParameter {
    open spec fn enc(self) -> Result<Seq<u8>, Flaw> {
        if self.name_index.idx <= 0xFFFF {
            Ok(be16(self.name_index.idx as u16) + be16(self.access_flags.flags))
        } else {
            Err(Flaw::IndexOutOfRange)
        }
    }

    open spec fn dec(s: Seq<u8>, pos: int, end: int) -> Result<(Self, int), Fault> {
        if pos + 4 <= end {
            Ok(
                (
                    MethodParameter {
                        name_index: ConstantPoolIndex { idx: word16(s, pos) as usize },
                        access_flags: AccessFlags { flags: word16(s, pos + 2) },
                    },
                    pos + 4,
                ),
            )
        } else {
            Err(truncated(pos))
        }
    }

    proof fn lemma_round_trip(self, s: Seq<u8>, pos: int, end: int) {
        let e = self.enc()->Ok_0;
        assert(s[pos + 0] == e[0]);
        assert(s[pos + 1] == e[1]);
        assert(s[pos + 2] == e[2]);
        assert(s[pos + 3] == e[3]);
    }

    proof fn lemma_encodable(s: Seq<u8>, pos: int, end: int) {
    }

    proof fn lemma_exact(s: Seq<u8>, pos: int, end: int) {
        lemma_u16_stands(s, pos);
        lemma_u16_stands(s, pos + 2);
        let w0 = be16(word16(s, pos));
        let w1 = be16(word16(s, pos + 2));
        lemma_occurs_join(s, pos, w0, w1);
    }
}

impl Wire for MethodParameter {
    fn read(b: &[u8], pos: usize, end: usize) -> (r: Result<(Self, usize), Fault>) {
        if end - pos >= 4 {
            let v0: u16 = peek_u16(b, pos);
            let v1: u16 = peek_u16(b, pos + 2);
            Ok(
                (
                    MethodParameter {
                    name_index: ConstantPoolIndex { idx: v0 as usize },
                    access_flags: AccessFlags { flags: v1 },
                    },
                    pos + 4,
                ),
            )
        } else {
            Err(Fault { kind: FaultKind::Truncated, offset: pos })
        }
    }

    fn write(&self, out: &mut Vec<u8>) -> (r: Result<(), Flaw>) {
        if self.name_index.idx > 0xFFFF {
            return Err(Flaw::IndexOutOfRange);
        }
        put_u16(out, self.name_index.idx as u16);
        put_u16(out, self.access_flags.flags);
        assert(out@ =~= old(out)@ + (be16(self.name_index.idx as u16)
            + be16(self.access_flags.flags)));
        Ok(())
    }
}

/// An entry of `BootstrapMethods`: the index of the method handle, and a
/// counted list of the indices of its arguments.
impl Record for BootstrapMethodView {
    open spec fn enc(self) -> Result<Seq<u8>, Flaw> {
        then(enc_index(self.bootstrap_method_ref), enc_counted(self.bootstrap_arguments))
    }

    open spec fn dec(s: Seq<u8>, pos: int, end: int) -> Result<(Self, int), Fault> {
        match dec_index(s, pos, end) {
            Err(e) => Err(e),
            Ok((method, p)) => match dec_counted::<ConstantPoolIndex>(s, p, end) {
                Err(e) => Err(e),
                Ok((arguments, q)) => Ok(
                    (
                        BootstrapMethodView {
                            bootstrap_method_ref: method,
                            bootstrap_arguments: arguments,
                        },
                        q,
                    ),
                ),
            },
        }
    }

    proof fn lemma_round_trip(self, s: Seq<u8>, pos: int, end: int) {
        let head = enc_index(self.bootstrap_method_ref)->Ok_0;
        let tail = enc_counted(self.bootstrap_arguments)->Ok_0;
        lemma_occurs_split(s, pos, head, tail);
        lemma_index_round_trip(self.bootstrap_method_ref, s, pos, end);
        lemma_counted_round_trip(self.bootstrap_arguments, s, pos + 2, end);
    }

    proof fn lemma_encodable(s: Seq<u8>, pos: int, end: int) {
        lemma_index_encodable(s, pos, end);
        lemma_counted_encodable::<ConstantPoolIndex>(s, pos + 2, end);
    }

    proof fn lemma_exact(s: Seq<u8>, pos: int, end: int) {
        lemma_u16_stands(s, pos);
        lemma_counted_encodable::<ConstantPoolIndex>(s, pos + 2, end);
        lemma_counted_exact::<ConstantPoolIndex>(s, pos + 2, end);
        let (method, p) = dec_index(s, pos, end)->Ok_0;
        let (arguments, _) = dec_counted::<ConstantPoolIndex>(s, p, end)->Ok_0;
        lemma_occurs_join(s, pos, enc_index(method)->Ok_0, enc_counted(arguments)->Ok_0);
    }
}

/// Reads one entry of `BootstrapMethods`.
pub fn read_bootstrap_method(b: &[u8], pos: usize, end: usize) -> (r: Result<
    (BootstrapMethod, usize),
    Fault,
>)
    requires
        in_region(b@, pos as int, end as int),
    ensures
        agrees(r, BootstrapMethodView::dec(b@, pos as int, end as int), pos, end),
{
    let (method, p) = read_index(b, pos, end)?;
    let (arguments, q) = read_counted::<ConstantPoolIndex>(b, p, end)?;
    Ok((BootstrapMethod { bootstrap_method_ref: method, bootstrap_arguments: arguments }, q))
}

/// Appends one entry of `BootstrapMethods`.
pub fn write_bootstrap_method(out: &mut Vec<u8>, m: &BootstrapMethod) -> (r: Result<(), Flaw>)
    ensures
        appended(r, m@.enc(), old(out)@, final(out)@),
{
    write_index(out, &m.bootstrap_method_ref)?;
    write_counted(out, &m.bootstrap_arguments)?;
    proof {
        let head = enc_index(m.bootstrap_method_ref)->Ok_0;
        let tail = enc_counted(m.bootstrap_arguments@)->Ok_0;
        assert(old(out)@ + head + tail =~= old(out)@ + (head + tail));
    }
    Ok(())
}

/// Reads the counted list of `BootstrapMethods`.
pub fn read_bootstrap_methods(b: &[u8], pos: usize, end: usize) -> (r: Result<
    (Vec<BootstrapMethod>, usize),
    Fault,
>)
    requires
        in_region(b@, pos as int, end as int),
    ensures
        match r {
            Ok((v, p)) => dec_counted::<BootstrapMethodView>(b@, pos as int, end as int) == Ok::<
                (Seq<BootstrapMethodView>, int),
                Fault,
            >((bootstrap_view(v@), p as int)) && pos <= p <= end,
            Err(e) => dec_counted::<BootstrapMethodView>(b@, pos as int, end as int) == Err::<
                (Seq<BootstrapMethodView>, int),
                Fault,
            >(e),
        },
{
    let (n, start) = get_u16(b, pos, end)?;
    let mut v: Vec<BootstrapMethod> = Vec::new();
    let mut p: usize = start;
    let mut i: u16 = 0;
    assert(bootstrap_view(v@) =~= Seq::empty());
    while i < n
        invariant
            i <= n,
            pos <= p,
            in_region(b@, p as int, end as int),
            dec_counted::<BootstrapMethodView>(b@, pos as int, end as int) == prepend(
                bootstrap_view(v@),
                dec_all::<BootstrapMethodView>(b@, p as int, end as int, n - i),
            ),
        decreases n - i,
    {
        let ghost before = bootstrap_view(v@);
        let (x, q) = read_bootstrap_method(b, p, end)?;
        let ghost xv = x@;
        v.push(x);
        proof {
            assert(bootstrap_view(v@) =~= before + seq![xv]);
            if let Ok((tail, _)) = dec_all::<BootstrapMethodView>(b@, q as int, end as int, n - i - 1) {
                assert(before + (seq![xv] + tail) =~= bootstrap_view(v@) + tail);
            }
        }
        p = q;
        i = i + 1;
    }
    proof {
        assert(bootstrap_view(v@) + Seq::<BootstrapMethodView>::empty() =~= bootstrap_view(v@));
    }
    Ok((v, p))
}

/// Appends the counted list of `BootstrapMethods`.
pub fn write_bootstrap_methods(out: &mut Vec<u8>, items: &Vec<BootstrapMethod>) -> (r: Result<
    (),
    Flaw,
>)
    ensures
        appended(r, enc_counted(bootstrap_view(items@)), old(out)@, final(out)@),
{
    if items.len() > 0xFFFF {
        return Err(Flaw::CountOutOfRange);
    }
    let ghost views = bootstrap_view(items@);
    put_u16(out, items.len() as u16);
    let ghost start = out@;
    let ghost mut acc: Seq<u8> = Seq::empty();
    let mut i: usize = 0;
    proof {
        assert(views.skip(0) =~= views);
        if let Ok(t) = enc_all(views) {
            assert(acc + t =~= t);
        }
        assert(start + acc =~= start);
    }
    while i < items.len()
        invariant
            i <= items.len(),
            items.len() <= 0xFFFF,
            views == bootstrap_view(items@),
            out@ == start + acc,
            enc_all(views) == then(Ok(acc), enc_all(views.skip(i as int))),
        decreases items.len() - i,
    {
        proof {
            lemma_enc_all_step(views, i as int, acc);
            assert(views[i as int] == items@[i as int]@);
        }
        write_bootstrap_method(out, &items[i])?;
        proof {
            let e = views[i as int].enc()->Ok_0;
            assert(out@ =~= start + (acc + e));
            acc = acc + e;
        }
        i = i + 1;
    }
    proof {
        assert(views.skip(views.len() as int) =~= Seq::empty());
        assert(acc + Seq::<u8>::empty() =~= acc);
        assert(start + acc =~= old(out)@ + (be16(views.len() as u16) + acc));
    }
    Ok(())
}

/// A verification type: a tag, and two bytes more for `Object` and
/// `Uninitialized`.
impl Record for VerificationType {
    open spec fn enc(self) -> Result<Seq<u8>, Flaw> {
        match self {
            VerificationType::Top => Ok(seq![0u8]),
            VerificationType::Integer => Ok(seq![1u8]),
            VerificationType::Float => Ok(seq![2u8]),
            VerificationType::Double => Ok(seq![3u8]),
            VerificationType::Long => Ok(seq![4u8]),
            VerificationType::Null => Ok(seq![5u8]),
            VerificationType::Uninitializedthis => Ok(seq![6u8]),
            VerificationType::Object { cpool_index } => then(Ok(seq![7u8]), enc_index(cpool_index)),
            VerificationType::Uninitialized { offset } => Ok(seq![8u8] + be16(offset)),
        }
    }

    open spec fn dec(s: Seq<u8>, pos: int, end: int) -> Result<(Self, int), Fault> {
        match take_u8(s, pos, end) {
            Err(e) => Err(e),
            Ok((tag, p)) => if tag == 0 {
                Ok((VerificationType::Top, p))
            } else if tag == 1 {
                Ok((VerificationType::Integer, p))
            } else if tag == 2 {
                Ok((VerificationType::Float, p))
            } else if tag == 3 {
                Ok((VerificationType::Double, p))
            } else if tag == 4 {
                Ok((VerificationType::Long, p))
            } else if tag == 5 {
                Ok((VerificationType::Null, p))
            } else if tag == 6 {
                Ok((VerificationType::Uninitializedthis, p))
            } else if tag == 7 {
                match dec_index(s, p, end) {
                    Err(e) => Err(e),
                    Ok((cpool_index, q)) => Ok((VerificationType::Object { cpool_index }, q)),
                }
            } else if tag == 8 {
                match take_u16(s, p, end) {
                    Err(e) => Err(e),
                    Ok((offset, q)) => Ok((VerificationType::Uninitialized { offset }, q)),
                }
            } else {
                Err(fault(FaultKind::UnknownTag, pos))
            },
        }
    }

    proof fn lemma_round_trip(self, s: Seq<u8>, pos: int, end: int) {
        let e = self.enc()->Ok_0;
        assert(s[pos + 0] == e[0]);
        match self {
            VerificationType::Object { cpool_index } => {
                lemma_occurs_split(s, pos, seq![7u8], enc_index(cpool_index)->Ok_0);
                lemma_index_round_trip(cpool_index, s, pos + 1, end);
            },
            VerificationType::Uninitialized { offset } => {
                lemma_occurs_split(s, pos, seq![8u8], be16(offset));
                lemma_occurs_u16(s, pos + 1, end, offset);
            },
            _ => {},
        }
    }

    proof fn lemma_encodable(s: Seq<u8>, pos: int, end: int) {
    }

    proof fn lemma_exact(s: Seq<u8>, pos: int, end: int) {
        let tag = s[pos];
        lemma_u8_stands(s, pos);
        if tag == 7 || tag == 8 {
            lemma_u16_stands(s, pos + 1);
            lemma_occurs_join(s, pos, seq![tag], be16(word16(s, pos + 1)));
        }
    }
}

impl Wire for VerificationType {
    fn read(b: &[u8], pos: usize, end: usize) -> (r: Result<(Self, usize), Fault>) {
        let (tag, p) = get_u8(b, pos, end)?;
        match tag {
            0 => Ok((VerificationType::Top, p)),
            1 => Ok((VerificationType::Integer, p)),
            2 => Ok((VerificationType::Float, p)),
            3 => Ok((VerificationType::Double, p)),
            4 => Ok((VerificationType::Long, p)),
            5 => Ok((VerificationType::Null, p)),
            6 => Ok((VerificationType::Uninitializedthis, p)),
            7 => {
                let (cpool_index, q) = read_index(b, p, end)?;
                Ok((VerificationType::Object { cpool_index }, q))
            },
            8 => {
                let (offset, q) = get_u16(b, p, end)?;
                Ok((VerificationType::Uninitialized { offset }, q))
            },
            _ => Err(Fault { kind: FaultKind::UnknownTag, offset: pos }),
        }
    }

    fn write(&self, out: &mut Vec<u8>) -> (r: Result<(), Flaw>) {
        match self {
            VerificationType::Top => put_u8(out, 0),
            VerificationType::Integer => put_u8(out, 1),
            VerificationType::Float => put_u8(out, 2),
            VerificationType::Double => put_u8(out, 3),
            VerificationType::Long => put_u8(out, 4),
            VerificationType::Null => put_u8(out, 5),
            VerificationType::Uninitializedthis => put_u8(out, 6),
            VerificationType::Object { cpool_index } => {
                if cpool_index.idx > 0xFFFF {
                    return Err(Flaw::IndexOutOfRange);
                }
                put_u8(out, 7);
                put_u16(out, cpool_index.idx as u16);
                assert(out@ =~= old(out)@ + (seq![7u8] + be16(cpool_index.idx as u16)));
            },
            VerificationType::Uninitialized { offset } => {
                put_u8(out, 8);
                put_u16(out, *offset);
                assert(out@ =~= old(out)@ + (seq![8u8] + be16(*offset)));
            },
        }
        Ok(())
    }
}

/// A step of a type path: the kind of the step, and the index of the type
/// argument that it enters.
impl Record for (TypePathKind, u8) {
    open spec fn enc(self) -> Result<Seq<u8>, Flaw> {
        Ok(
            seq![
                match self.0 {
                    TypePathKind::Array => 0u8,
                    TypePathKind::Nested => 1u8,
                    TypePathKind::Wildcard => 2u8,
                    TypePathKind::TypeArgument => 3u8,
                },
                self.1,
            ],
        )
    }

    open spec fn dec(s: Seq<u8>, pos: int, end: int) -> Result<(Self, int), Fault> {
        if pos + 2 <= end {
            let kind = s[pos];
            if kind == 0 {
                Ok(((TypePathKind::Array, s[pos + 1]), pos + 2))
            } else if kind == 1 {
                Ok(((TypePathKind::Nested, s[pos + 1]), pos + 2))
            } else if kind == 2 {
                Ok(((TypePathKind::Wildcard, s[pos + 1]), pos + 2))
            } else if kind == 3 {
                Ok(((TypePathKind::TypeArgument, s[pos + 1]), pos + 2))
            } else {
                Err(fault(FaultKind::UnknownTag, pos))
            }
        } else {
            Err(truncated(pos))
        }
    }

    proof fn lemma_round_trip(self, s: Seq<u8>, pos: int, end: int) {
        let e = self.enc()->Ok_0;
        assert(s[pos + 0] == e[0]);
        assert(s[pos + 1] == e[1]);
    }

    proof fn lemma_encodable(s: Seq<u8>, pos: int, end: int) {
    }

    proof fn lemma_exact(s: Seq<u8>, pos: int, end: int) {
        let (v, p) = Self::dec(s, pos, end)->Ok_0;
        let e = v.enc()->Ok_0;
        assert(e[0] == s[pos]);
        assert(e[1] == s[pos + 1]);
        assert forall|i: int| 0 <= i < e.len() implies s[pos + i] == #[trigger] e[i] by {
            if i == 0 {
            } else {
                assert(i == 1);
            }
        }
    }
}

impl Wire for (TypePathKind, u8) {
    fn read(b: &[u8], pos: usize, end: usize) -> (r: Result<(Self, usize), Fault>) {
        if end - pos < 2 {
            return Err(Fault { kind: FaultKind::Truncated, offset: pos });
        }
        let index = b[pos + 1];
        match b[pos] {
            0 => Ok(((TypePathKind::Array, index), pos + 2)),
            1 => Ok(((TypePathKind::Nested, index), pos + 2)),
            2 => Ok(((TypePathKind::Wildcard, index), pos + 2)),
            3 => Ok(((TypePathKind::TypeArgument, index), pos + 2)),
            _ => Err(Fault { kind: FaultKind::UnknownTag, offset: pos }),
        }
    }

    fn write(&self, out: &mut Vec<u8>) -> (r: Result<(), Flaw>) {
        let kind: u8 = match self.0 {
            TypePathKind::Array => 0,
            TypePathKind::Nested => 1,
            TypePathKind::Wildcard => 2,
            TypePathKind::TypeArgument => 3,
        };
        put_u8(out, kind);
        put_u8(out, self.1);
        assert(out@ =~= old(out)@ + seq![kind, self.1]);
        Ok(())
    }
}

} // verus!
