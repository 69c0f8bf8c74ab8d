//! The table of opcodes: the opcode and operand layout of every
//! instruction, and the codec of the instruction stream.
use vstd::prelude::*;
use crate::bytecode::classfile::Insn;
use crate::bytecode::classfile::Instruction;
use crate::bytecode::classfile::code_view;
use crate::bytecode::record::dec_all;
use crate::bytecode::record::enc_all;
use crate::bytecode::record::lemma_all_encodable;
use crate::bytecode::record::lemma_all_round_trip;
use crate::bytecode::record::read_all;
use crate::bytecode::record::write_all;
use crate::bytecode::wire::Fault;
use crate::bytecode::wire::FaultKind;
use crate::bytecode::wire::Flaw;
use crate::bytecode::wire::agrees;
use crate::bytecode::wire::appended;
use crate::bytecode::wire::be16;
use crate::bytecode::wire::be32;
use crate::bytecode::wire::bits32;
use crate::bytecode::wire::bits8;
use crate::bytecode::wire::fault;
use crate::bytecode::wire::get_u16;
use crate::bytecode::wire::get_u32;
use crate::bytecode::wire::get_u8;
use crate::bytecode::wire::i32_bits;
use crate::bytecode::wire::i32_of_bits;
use crate::bytecode::wire::i8_bits;
use crate::bytecode::wire::i8_of_bits;
use crate::bytecode::wire::in_region;
use crate::bytecode::wire::lemma_bits_signed32;
use crate::bytecode::wire::lemma_bits_signed8;
use crate::bytecode::wire::lemma_occurs_split;
use crate::bytecode::wire::lemma_occurs_u16;
use crate::bytecode::wire::lemma_occurs_u32;
use crate::bytecode::wire::lemma_occurs_u8;
use crate::bytecode::wire::occurs;
use crate::bytecode::wire::prepend;
use crate::bytecode::wire::put_u16;
use crate::bytecode::wire::put_u32;
use crate::bytecode::wire::put_u8;
use crate::bytecode::wire::take_bytes;
use crate::bytecode::wire::take_u16;
use crate::bytecode::wire::take_u32;
use crate::bytecode::wire::take_u8;
use crate::bytecode::wire::then;

verus! {

broadcast use crate::bytecode::wire::group_wire_lengths;

/// How the operands of an opcode are laid out.
#[derive(Clone, Copy, Debug, PartialEq, Eq, Structural)]
pub enum Shape {
    /// No operand.
    Plain,
    /// One byte.
    U8,
    /// Two bytes.
    U16,
    /// Four bytes.
    U32,
    /// A byte and a signed byte.
    U8I8,
    /// Two bytes and a byte.
    U16U8,
    /// Padding, a default offset, a count and as many pairs.
    Lookup,
    /// The model holds no operands for the opcode, or the opcode is not
    /// defined.
    Unsupported,
}

/// The layout of the operands of opcode `op`.
pub open spec fn shape_of(op: u8) -> Shape {
    match op {
        0x12 | 0x15 | 0x17 | 0x18 | 0x19 | 0x36 | 0x37 | 0x38 | 0x39 | 0x3a | 0xa9
            | 0xbc => Shape::U8,
        0x11 | 0x13 | 0x14 | 0x99 | 0x9a | 0x9b | 0x9c | 0x9d | 0x9e | 0x9f | 0xa0 | 0xa1 | 0xa2
            | 0xa3 | 0xa4 | 0xa5 | 0xa6 | 0xa7 | 0xa8 | 0xb2 | 0xb3 | 0xb4 | 0xb5 | 0xb6 | 0xb7
            | 0xb8 | 0xba | 0xbb | 0xbd | 0xc0 | 0xc1 | 0xc6 | 0xc7 => Shape::U16,
        0xc8 | 0xc9 => Shape::U32,
        0x84 => Shape::U8I8,
        0xb9 | 0xc5 => Shape::U16U8,
        0xab => Shape::Lookup,
        0xaa | 0xc4 => Shape::Unsupported,
        _ => if op <= 0xc9 {
            Shape::Plain
        } else {
            Shape::Unsupported
        },
    }
}

/// The instruction with opcode `op` and no operands.
pub open spec fn plain(op: u8) -> Insn {
    Insn { op, a: 0, b: 0, pairs: Seq::empty() }
}

/// The instruction with opcode `op` and the one operand `a`.
pub open spec fn with_a(op: u8, a: u32) -> Insn {
    Insn { op, a, b: 0, pairs: Seq::empty() }
}

/// The instruction with opcode `op` and the operands `a` and `b`.
pub open spec fn with_ab(op: u8, a: u32, b: u8) -> Insn {
    Insn { op, a, b, pairs: Seq::empty() }
}

impl View for Instruction {
    type V = Insn;

    open spec fn view(&self) -> Insn {
        match *self {
            Instruction::AALOAD => plain(0x32),
            Instruction::AASTORE => plain(0x53),
            Instruction::ACONST_NULL => plain(0x01),
            Instruction::ALOAD(a) => with_a(0x19, a as u32),
            Instruction::ALOAD_0 => plain(0x2a),
            Instruction::ALOAD_1 => plain(0x2b),
            Instruction::ALOAD_2 => plain(0x2c),
            Instruction::ALOAD_3 => plain(0x2d),
            Instruction::ANEWARRAY(a) => with_a(0xbd, a as u32),
            Instruction::ARETURN => plain(0xb0),
            Instruction::ARRAYLENGTH => plain(0xbe),
            Instruction::ASTORE(a) => with_a(0x3a, a as u32),
            Instruction::ASTORE_0 => plain(0x4b),
            Instruction::ASTORE_1 => plain(0x4c),
            Instruction::ASTORE_2 => plain(0x4d),
            Instruction::ASTORE_3 => plain(0x4e),
            Instruction::ATHROW => plain(0xbf),
            Instruction::BALOAD => plain(0x33),
            Instruction::BASTORE => plain(0x54),
            Instruction::BIPUSH => plain(0x10),
            Instruction::CALOAD => plain(0x34),
            Instruction::CASTORE => plain(0x55),
            Instruction::CHECKCAST(a) => with_a(0xc0, a as u32),
            Instruction::D2F => plain(0x90),
            Instruction::D2I => plain(0x8e),
            Instruction::D2L => plain(0x8f),
            Instruction::DADD => plain(0x63),
            Instruction::DALOAD => plain(0x31),
            Instruction::DASTORE => plain(0x52),
            Instruction::DCMPL => plain(0x97),
            Instruction::DCMPG => plain(0x98),
            Instruction::DCONST_0 => plain(0x0e),
            Instruction::DCONST_1 => plain(0x0f),
            Instruction::DDIV => plain(0x6f),
            Instruction::DLOAD(a) => with_a(0x18, a as u32),
            Instruction::DLOAD_0 => plain(0x26),
            Instruction::DLOAD_1 => plain(0x27),
            Instruction::DLOAD_2 => plain(0x28),
            Instruction::DLOAD_3 => plain(0x29),
            Instruction::DMUL => plain(0x6b),
            Instruction::DNEG => plain(0x77),
            Instruction::DREM => plain(0x73),
            Instruction::DRETURN => plain(0xaf),
            Instruction::DSTORE(a) => with_a(0x39, a as u32),
            Instruction::DSTORE_0 => plain(0x47),
            Instruction::DSTORE_1 => plain(0x48),
            Instruction::DSTORE_2 => plain(0x49),
            Instruction::DSTORE_3 => plain(0x4a),
            Instruction::DSUB => plain(0x67),
            Instruction::DUP => plain(0x59),
            Instruction::DUP_X1 => plain(0x5a),
            Instruction::DUP_X2 => plain(0x5b),
            Instruction::DUP2 => plain(0x5c),
            Instruction::DUP2_X1 => plain(0x5d),
            Instruction::DUP2_X2 => plain(0x5e),
            Instruction::F2D => plain(0x8d),
            Instruction::F2I => plain(0x8b),
            Instruction::F2L => plain(0x8c),
            Instruction::FADD => plain(0x62),
            Instruction::FALOAD => plain(0x30),
            Instruction::FASTORE => plain(0x51),
            Instruction::FCMPL => plain(0x95),
            Instruction::FCMPG => plain(0x96),
            Instruction::FCONST_0 => plain(0x0b),
            Instruction::FCONST_1 => plain(0x0c),
            Instruction::FCONST_2 => plain(0x0d),
            Instruction::FDIV => plain(0x6e),
            Instruction::FLOAD(a) => with_a(0x17, a as u32),
            Instruction::FLOAD_0 => plain(0x22),
            Instruction::FLOAD_1 => plain(0x23),
            Instruction::FLOAD_2 => plain(0x24),
            Instruction::FLOAD_3 => plain(0x25),
            Instruction::FMUL => plain(0x6a),
            Instruction::FNEG => plain(0x76),
            Instruction::FREM => plain(0x72),
            Instruction::FRETURN => plain(0xae),
            Instruction::FSTORE(a) => with_a(0x38, a as u32),
            Instruction::FSTORE_0 => plain(0x43),
            Instruction::FSTORE_1 => plain(0x44),
            Instruction::FSTORE_2 => plain(0x45),
            Instruction::FSTORE_3 => plain(0x46),
            Instruction::FSUB => plain(0x66),
            Instruction::GETFIELD(a) => with_a(0xb4, a as u32),
            Instruction::GETSTATIC(a) => with_a(0xb2, a as u32),
            Instruction::GOTO(a) => with_a(0xa7, a as u32),
            Instruction::GOTO_W(a) => with_a(0xc8, a),
            Instruction::I2B => plain(0x91),
            Instruction::I2C => plain(0x92),
            Instruction::I2D => plain(0x87),
            Instruction::I2F => plain(0x86),
            Instruction::I2L => plain(0x85),
            Instruction::I2S => plain(0x93),
            Instruction::IADD => plain(0x60),
            Instruction::IALOAD => plain(0x2e),
            Instruction::IAND => plain(0x7e),
            Instruction::IASTORE => plain(0x4f),
            Instruction::ICONST_M1 => plain(0x02),
            Instruction::ICONST_0 => plain(0x03),
            Instruction::ICONST_1 => plain(0x04),
            Instruction::ICONST_2 => plain(0x05),
            Instruction::ICONST_3 => plain(0x06),
            Instruction::ICONST_4 => plain(0x07),
            Instruction::ICONST_5 => plain(0x08),
            Instruction::IDIV => plain(0x6c),
            Instruction::IF_ACMPEQ(a) => with_a(0xa5, a as u32),
            Instruction::IF_ACMPNE(a) => with_a(0xa6, a as u32),
            Instruction::IF_ICMPEQ(a) => with_a(0x9f, a as u32),
            Instruction::IF_ICMPNE(a) => with_a(0xa0, a as u32),
            Instruction::IF_ICMPLT(a) => with_a(0xa1, a as u32),
            Instruction::IF_ICMPGE(a) => with_a(0xa2, a as u32),
            Instruction::IF_ICMPGT(a) => with_a(0xa3, a as u32),
            Instruction::IF_ICMPLE(a) => with_a(0xa4, a as u32),
            Instruction::IFEQ(a) => with_a(0x99, a as u32),
            Instruction::IFNE(a) => with_a(0x9a, a as u32),
            Instruction::IFLT(a) => with_a(0x9b, a as u32),
            Instruction::IFGE(a) => with_a(0x9c, a as u32),
            Instruction::IFGT(a) => with_a(0x9d, a as u32),
            Instruction::IFLE(a) => with_a(0x9e, a as u32),
            Instruction::IFNONNULL(a) => with_a(0xc7, a as u32),
            Instruction::IFNULL(a) => with_a(0xc6, a as u32),
            Instruction::IINC(a, b) => with_ab(0x84, a as u32, bits8(b)),
            Instruction::ILOAD(a) => with_a(0x15, a as u32),
            Instruction::ILOAD_0 => plain(0x1a),
            Instruction::ILOAD_1 => plain(0x1b),
            Instruction::ILOAD_2 => plain(0x1c),
            Instruction::ILOAD_3 => plain(0x1d),
            Instruction::IMUL => plain(0x68),
            Instruction::INEG => plain(0x74),
            Instruction::INSTANCEOF(a) => with_a(0xc1, a as u32),
            Instruction::INVOKEDYNAMIC(a) => with_a(0xba, a as u32),
            Instruction::INVOKEINTERFACE(a, b) => with_ab(0xb9, a as u32, b),
            Instruction::INVOKESPECIAL(a) => with_a(0xb7, a as u32),
            Instruction::INVOKESTATIC(a) => with_a(0xb8, a as u32),
            Instruction::INVOKEVIRTUAL(a) => with_a(0xb6, a as u32),
            Instruction::IOR => plain(0x80),
            Instruction::IREM => plain(0x70),
            Instruction::IRETURN => plain(0xac),
            Instruction::ISHL => plain(0x78),
            Instruction::ISHR => plain(0x7a),
            Instruction::ISTORE(a) => with_a(0x36, a as u32),
            Instruction::ISTORE_0 => plain(0x3b),
            Instruction::ISTORE_1 => plain(0x3c),
            Instruction::ISTORE_2 => plain(0x3d),
            Instruction::ISTORE_3 => plain(0x3e),
            Instruction::ISUB => plain(0x64),
            Instruction::IUSHR => plain(0x7c),
            Instruction::IXOR => plain(0x82),
            Instruction::JSR(a) => with_a(0xa8, a as u32),
            Instruction::JSR_W(a) => with_a(0xc9, a),
            Instruction::L2D => plain(0x8a),
            Instruction::L2F => plain(0x89),
            Instruction::L2I => plain(0x88),
            Instruction::LADD => plain(0x61),
            Instruction::LALOAD => plain(0x2f),
            Instruction::LAND => plain(0x7f),
            Instruction::LASTORE => plain(0x50),
            Instruction::LCMP => plain(0x94),
            Instruction::LCONST_0 => plain(0x09),
            Instruction::LCONST_1 => plain(0x0a),
            Instruction::LDC(a) => with_a(0x12, a as u32),
            Instruction::LDC_W(a) => with_a(0x13, a as u32),
            Instruction::LDC2_W(a) => with_a(0x14, a as u32),
            Instruction::LDIV => plain(0x6d),
            Instruction::LLOAD => plain(0x16),
            Instruction::LLOAD_0 => plain(0x1e),
            Instruction::LLOAD_1 => plain(0x1f),
            Instruction::LLOAD_2 => plain(0x20),
            Instruction::LLOAD_3 => plain(0x21),
            Instruction::LMUL => plain(0x69),
            Instruction::LNEG => plain(0x75),
            Instruction::LOOKUPSWITCH(d, pairs) => Insn { op: 0xab, a: bits32(d), b: 0, pairs: pairs@ },
            Instruction::LOR => plain(0x81),
            Instruction::LREM => plain(0x71),
            Instruction::LRETURN => plain(0xad),
            Instruction::LSHL => plain(0x79),
            Instruction::LSHR => plain(0x7b),
            Instruction::LSTORE(a) => with_a(0x37, a as u32),
            Instruction::LSTORE_0 => plain(0x3f),
            Instruction::LSTORE_1 => plain(0x40),
            Instruction::LSTORE_2 => plain(0x41),
            Instruction::LSTORE_3 => plain(0x42),
            Instruction::LSUB => plain(0x65),
            Instruction::LUSHR => plain(0x7d),
            Instruction::LXOR => plain(0x83),
            Instruction::MONITORENTER => plain(0xc2),
            Instruction::MONITOREXIT => plain(0xc3),
            Instruction::MULTIANEWARRAY(a, b) => with_ab(0xc5, a as u32, b),
            Instruction::NEW(a) => with_a(0xbb, a as u32),
            Instruction::NEWARRAY(a) => with_a(0xbc, a as u32),
            Instruction::NOP => plain(0x00),
            Instruction::POP => plain(0x57),
            Instruction::POP2 => plain(0x58),
            Instruction::PUTFIELD(a) => with_a(0xb5, a as u32),
            Instruction::PUTSTATIC(a) => with_a(0xb3, a as u32),
            Instruction::RET(a) => with_a(0xa9, a as u32),
            Instruction::RETURN => plain(0xb1),
            Instruction::SALOAD => plain(0x35),
            Instruction::SASTORE => plain(0x56),
            Instruction::SIPUSH(a) => with_a(0x11, a as u32),
            Instruction::SWAP => plain(0x5f),
            Instruction::TABLESWITCH => plain(0xaa),
            Instruction::WIDE => plain(0xc4),
        }
    }
}

/// The length that an instruction declares: 1 and the width of its
/// operands, and `5 + 4 * pairs.len()` for `LOOKUPSWITCH`.
pub open spec fn declared_len(i: Insn) -> nat {
    match shape_of(i.op) {
        Shape::Plain | Shape::Unsupported => 1,
        Shape::U8 => 2,
        Shape::U16 | Shape::U8I8 => 3,
        Shape::U16U8 => 4,
        Shape::U32 => 5,
        Shape::Lookup => 5 + 4 * i.pairs.len(),
    }
}

/// The layout of the operands of opcode `op`.
pub fn shape(op: u8) -> (r: Shape)
    ensures
        r == shape_of(op),
{
    match op {
        0x12 | 0x15 | 0x17 | 0x18 | 0x19 | 0x36 | 0x37 | 0x38 | 0x39 | 0x3a | 0xa9
            | 0xbc => Shape::U8,
        0x11 | 0x13 | 0x14 | 0x99 | 0x9a | 0x9b | 0x9c | 0x9d | 0x9e | 0x9f | 0xa0 | 0xa1 | 0xa2
            | 0xa3 | 0xa4 | 0xa5 | 0xa6 | 0xa7 | 0xa8 | 0xb2 | 0xb3 | 0xb4 | 0xb5 | 0xb6 | 0xb7
            | 0xb8 | 0xba | 0xbb | 0xbd | 0xc0 | 0xc1 | 0xc6 | 0xc7 => Shape::U16,
        0xc8 | 0xc9 => Shape::U32,
        0x84 => Shape::U8I8,
        0xb9 | 0xc5 => Shape::U16U8,
        0xab => Shape::Lookup,
        0xaa | 0xc4 => Shape::Unsupported,
        _ => if op <= 0xc9 {
            Shape::Plain
        } else {
            Shape::Unsupported
        },
    }
}

/// The operands of `i` are of the widths that its opcode asks for, and
/// what it does not have is zero or empty.
pub open spec fn fits(i: Insn) -> bool {
    match shape_of(i.op) {
        Shape::Plain => i.a == 0 && i.b == 0 && i.pairs.len() == 0,
        Shape::U8 => i.a <= 0xFF && i.b == 0 && i.pairs.len() == 0,
        Shape::U16 => i.a <= 0xFFFF && i.b == 0 && i.pairs.len() == 0,
        Shape::U32 => i.b == 0 && i.pairs.len() == 0,
        Shape::U8I8 => i.a <= 0xFF && i.pairs.len() == 0,
        Shape::U16U8 => i.a <= 0xFFFF && i.pairs.len() == 0,
        Shape::Lookup => i.b == 0,
        Shape::Unsupported => false,
    }
}

/// The length that the instructions of opcode `op` declare, where it is
/// the same for all of them: 1 and the width of the operands.
pub open spec fn fixed_len(op: u8) -> Option<nat> {
    match shape_of(op) {
        Shape::Plain => Some(1),
        Shape::U8 => Some(2),
        Shape::U16 | Shape::U8I8 => Some(3),
        Shape::U16U8 => Some(4),
        Shape::U32 => Some(5),
        Shape::Lookup | Shape::Unsupported => None,
    }
}

/// The length of the instructions of opcode `op`: none for a switch, whose
/// length is not fixed, and for an opcode without a layout.
pub fn opcode_len(op: u8) -> (r: Option<usize>)
    ensures
        match r {
            Some(n) => fixed_len(op) == Some(n as nat),
            None => fixed_len(op) is None,
        },
{
    match shape(op) {
        Shape::Plain => Some(1),
        Shape::U8 => Some(2),
        Shape::U16 | Shape::U8I8 => Some(3),
        Shape::U16U8 => Some(4),
        Shape::U32 => Some(5),
        Shape::Lookup | Shape::Unsupported => None,
    }
}

/// The opcode and the first two operands of an instruction.
pub fn operands(i: &Instruction) -> (r: (u8, u32, u8))
    ensures
        r.0 == i@.op,
        r.1 == i@.a,
        r.2 == i@.b,
        shape_of(i@.op) != Shape::Unsupported ==> fits(i@),
        i is LOOKUPSWITCH <==> shape_of(i@.op) == Shape::Lookup,
        i matches Instruction::LOOKUPSWITCH(_, pairs) ==> i@.pairs == pairs@,
{
    match i {
        Instruction::AALOAD => (0x32, 0, 0),
        Instruction::AASTORE => (0x53, 0, 0),
        Instruction::ACONST_NULL => (0x01, 0, 0),
        Instruction::ALOAD(a) => (0x19, *a as u32, 0),
        Instruction::ALOAD_0 => (0x2a, 0, 0),
        Instruction::ALOAD_1 => (0x2b, 0, 0),
        Instruction::ALOAD_2 => (0x2c, 0, 0),
        Instruction::ALOAD_3 => (0x2d, 0, 0),
        Instruction::ANEWARRAY(a) => (0xbd, *a as u32, 0),
        Instruction::ARETURN => (0xb0, 0, 0),
        Instruction::ARRAYLENGTH => (0xbe, 0, 0),
        Instruction::ASTORE(a) => (0x3a, *a as u32, 0),
        Instruction::ASTORE_0 => (0x4b, 0, 0),
        Instruction::ASTORE_1 => (0x4c, 0, 0),
        Instruction::ASTORE_2 => (0x4d, 0, 0),
        Instruction::ASTORE_3 => (0x4e, 0, 0),
        Instruction::ATHROW => (0xbf, 0, 0),
        Instruction::BALOAD => (0x33, 0, 0),
        Instruction::BASTORE => (0x54, 0, 0),
        Instruction::BIPUSH => (0x10, 0, 0),
        Instruction::CALOAD => (0x34, 0, 0),
        Instruction::CASTORE => (0x55, 0, 0),
        Instruction::CHECKCAST(a) => (0xc0, *a as u32, 0),
        Instruction::D2F => (0x90, 0, 0),
        Instruction::D2I => (0x8e, 0, 0),
        Instruction::D2L => (0x8f, 0, 0),
        Instruction::DADD => (0x63, 0, 0),
        Instruction::DALOAD => (0x31, 0, 0),
        Instruction::DASTORE => (0x52, 0, 0),
        Instruction::DCMPL => (0x97, 0, 0),
        Instruction::DCMPG => (0x98, 0, 0),
        Instruction::DCONST_0 => (0x0e, 0, 0),
        Instruction::DCONST_1 => (0x0f, 0, 0),
        Instruction::DDIV => (0x6f, 0, 0),
        Instruction::DLOAD(a) => (0x18, *a as u32, 0),
        Instruction::DLOAD_0 => (0x26, 0, 0),
        Instruction::DLOAD_1 => (0x27, 0, 0),
        Instruction::DLOAD_2 => (0x28, 0, 0),
        Instruction::DLOAD_3 => (0x29, 0, 0),
        Instruction::DMUL => (0x6b, 0, 0),
        Instruction::DNEG => (0x77, 0, 0),
        Instruction::DREM => (0x73, 0, 0),
        Instruction::DRETURN => (0xaf, 0, 0),
        Instruction::DSTORE(a) => (0x39, *a as u32, 0),
        Instruction::DSTORE_0 => (0x47, 0, 0),
        Instruction::DSTORE_1 => (0x48, 0, 0),
        Instruction::DSTORE_2 => (0x49, 0, 0),
        Instruction::DSTORE_3 => (0x4a, 0, 0),
        Instruction::DSUB => (0x67, 0, 0),
        Instruction::DUP => (0x59, 0, 0),
        Instruction::DUP_X1 => (0x5a, 0, 0),
        Instruction::DUP_X2 => (0x5b, 0, 0),
        Instruction::DUP2 => (0x5c, 0, 0),
        Instruction::DUP2_X1 => (0x5d, 0, 0),
        Instruction::DUP2_X2 => (0x5e, 0, 0),
        Instruction::F2D => (0x8d, 0, 0),
        Instruction::F2I => (0x8b, 0, 0),
        Instruction::F2L => (0x8c, 0, 0),
        Instruction::FADD => (0x62, 0, 0),
        Instruction::FALOAD => (0x30, 0, 0),
        Instruction::FASTORE => (0x51, 0, 0),
        Instruction::FCMPL => (0x95, 0, 0),
        Instruction::FCMPG => (0x96, 0, 0),
        Instruction::FCONST_0 => (0x0b, 0, 0),
        Instruction::FCONST_1 => (0x0c, 0, 0),
        Instruction::FCONST_2 => (0x0d, 0, 0),
        Instruction::FDIV => (0x6e, 0, 0),
        Instruction::FLOAD(a) => (0x17, *a as u32, 0),
        Instruction::FLOAD_0 => (0x22, 0, 0),
        Instruction::FLOAD_1 => (0x23, 0, 0),
        Instruction::FLOAD_2 => (0x24, 0, 0),
        Instruction::FLOAD_3 => (0x25, 0, 0),
        Instruction::FMUL => (0x6a, 0, 0),
        Instruction::FNEG => (0x76, 0, 0),
        Instruction::FREM => (0x72, 0, 0),
        Instruction::FRETURN => (0xae, 0, 0),
        Instruction::FSTORE(a) => (0x38, *a as u32, 0),
        Instruction::FSTORE_0 => (0x43, 0, 0),
        Instruction::FSTORE_1 => (0x44, 0, 0),
        Instruction::FSTORE_2 => (0x45, 0, 0),
        Instruction::FSTORE_3 => (0x46, 0, 0),
        Instruction::FSUB => (0x66, 0, 0),
        Instruction::GETFIELD(a) => (0xb4, *a as u32, 0),
        Instruction::GETSTATIC(a) => (0xb2, *a as u32, 0),
        Instruction::GOTO(a) => (0xa7, *a as u32, 0),
        Instruction::GOTO_W(a) => (0xc8, *a, 0),
        Instruction::I2B => (0x91, 0, 0),
        Instruction::I2C => (0x92, 0, 0),
        Instruction::I2D => (0x87, 0, 0),
        Instruction::I2F => (0x86, 0, 0),
        Instruction::I2L => (0x85, 0, 0),
        Instruction::I2S => (0x93, 0, 0),
        Instruction::IADD => (0x60, 0, 0),
        Instruction::IALOAD => (0x2e, 0, 0),
        Instruction::IAND => (0x7e, 0, 0),
        Instruction::IASTORE => (0x4f, 0, 0),
        Instruction::ICONST_M1 => (0x02, 0, 0),
        Instruction::ICONST_0 => (0x03, 0, 0),
        Instruction::ICONST_1 => (0x04, 0, 0),
        Instruction::ICONST_2 => (0x05, 0, 0),
        Instruction::ICONST_3 => (0x06, 0, 0),
        Instruction::ICONST_4 => (0x07, 0, 0),
        Instruction::ICONST_5 => (0x08, 0, 0),
        Instruction::IDIV => (0x6c, 0, 0),
        Instruction::IF_ACMPEQ(a) => (0xa5, *a as u32, 0),
        Instruction::IF_ACMPNE(a) => (0xa6, *a as u32, 0),
        Instruction::IF_ICMPEQ(a) => (0x9f, *a as u32, 0),
        Instruction::IF_ICMPNE(a) => (0xa0, *a as u32, 0),
        Instruction::IF_ICMPLT(a) => (0xa1, *a as u32, 0),
        Instruction::IF_ICMPGE(a) => (0xa2, *a as u32, 0),
        Instruction::IF_ICMPGT(a) => (0xa3, *a as u32, 0),
        Instruction::IF_ICMPLE(a) => (0xa4, *a as u32, 0),
        Instruction::IFEQ(a) => (0x99, *a as u32, 0),
        Instruction::IFNE(a) => (0x9a, *a as u32, 0),
        Instruction::IFLT(a) => (0x9b, *a as u32, 0),
        Instruction::IFGE(a) => (0x9c, *a as u32, 0),
        Instruction::IFGT(a) => (0x9d, *a as u32, 0),
        Instruction::IFLE(a) => (0x9e, *a as u32, 0),
        Instruction::IFNONNULL(a) => (0xc7, *a as u32, 0),
        Instruction::IFNULL(a) => (0xc6, *a as u32, 0),
        Instruction::IINC(a, b) => (0x84, *a as u32, i8_bits(*b)),
        Instruction::ILOAD(a) => (0x15, *a as u32, 0),
        Instruction::ILOAD_0 => (0x1a, 0, 0),
        Instruction::ILOAD_1 => (0x1b, 0, 0),
        Instruction::ILOAD_2 => (0x1c, 0, 0),
        Instruction::ILOAD_3 => (0x1d, 0, 0),
        Instruction::IMUL => (0x68, 0, 0),
        Instruction::INEG => (0x74, 0, 0),
        Instruction::INSTANCEOF(a) => (0xc1, *a as u32, 0),
        Instruction::INVOKEDYNAMIC(a) => (0xba, *a as u32, 0),
        Instruction::INVOKEINTERFACE(a, b) => (0xb9, *a as u32, *b),
        Instruction::INVOKESPECIAL(a) => (0xb7, *a as u32, 0),
        Instruction::INVOKESTATIC(a) => (0xb8, *a as u32, 0),
        Instruction::INVOKEVIRTUAL(a) => (0xb6, *a as u32, 0),
        Instruction::IOR => (0x80, 0, 0),
        Instruction::IREM => (0x70, 0, 0),
        Instruction::IRETURN => (0xac, 0, 0),
        Instruction::ISHL => (0x78, 0, 0),
        Instruction::ISHR => (0x7a, 0, 0),
        Instruction::ISTORE(a) => (0x36, *a as u32, 0),
        Instruction::ISTORE_0 => (0x3b, 0, 0),
        Instruction::ISTORE_1 => (0x3c, 0, 0),
        Instruction::ISTORE_2 => (0x3d, 0, 0),
        Instruction::ISTORE_3 => (0x3e, 0, 0),
        Instruction::ISUB => (0x64, 0, 0),
        Instruction::IUSHR => (0x7c, 0, 0),
        Instruction::IXOR => (0x82, 0, 0),
        Instruction::JSR(a) => (0xa8, *a as u32, 0),
        Instruction::JSR_W(a) => (0xc9, *a, 0),
        Instruction::L2D => (0x8a, 0, 0),
        Instruction::L2F => (0x89, 0, 0),
        Instruction::L2I => (0x88, 0, 0),
        Instruction::LADD => (0x61, 0, 0),
        Instruction::LALOAD => (0x2f, 0, 0),
        Instruction::LAND => (0x7f, 0, 0),
        Instruction::LASTORE => (0x50, 0, 0),
        Instruction::LCMP => (0x94, 0, 0),
        Instruction::LCONST_0 => (0x09, 0, 0),
        Instruction::LCONST_1 => (0x0a, 0, 0),
        Instruction::LDC(a) => (0x12, *a as u32, 0),
        Instruction::LDC_W(a) => (0x13, *a as u32, 0),
        Instruction::LDC2_W(a) => (0x14, *a as u32, 0),
        Instruction::LDIV => (0x6d, 0, 0),
        Instruction::LLOAD => (0x16, 0, 0),
        Instruction::LLOAD_0 => (0x1e, 0, 0),
        Instruction::LLOAD_1 => (0x1f, 0, 0),
        Instruction::LLOAD_2 => (0x20, 0, 0),
        Instruction::LLOAD_3 => (0x21, 0, 0),
        Instruction::LMUL => (0x69, 0, 0),
        Instruction::LNEG => (0x75, 0, 0),
        Instruction::LOOKUPSWITCH(d, _) => (0xab, i32_bits(*d), 0),
        Instruction::LOR => (0x81, 0, 0),
        Instruction::LREM => (0x71, 0, 0),
        Instruction::LRETURN => (0xad, 0, 0),
        Instruction::LSHL => (0x79, 0, 0),
        Instruction::LSHR => (0x7b, 0, 0),
        Instruction::LSTORE(a) => (0x37, *a as u32, 0),
        Instruction::LSTORE_0 => (0x3f, 0, 0),
        Instruction::LSTORE_1 => (0x40, 0, 0),
        Instruction::LSTORE_2 => (0x41, 0, 0),
        Instruction::LSTORE_3 => (0x42, 0, 0),
        Instruction::LSUB => (0x65, 0, 0),
        Instruction::LUSHR => (0x7d, 0, 0),
        Instruction::LXOR => (0x83, 0, 0),
        Instruction::MONITORENTER => (0xc2, 0, 0),
        Instruction::MONITOREXIT => (0xc3, 0, 0),
        Instruction::MULTIANEWARRAY(a, b) => (0xc5, *a as u32, *b),
        Instruction::NEW(a) => (0xbb, *a as u32, 0),
        Instruction::NEWARRAY(a) => (0xbc, *a as u32, 0),
        Instruction::NOP => (0x00, 0, 0),
        Instruction::POP => (0x57, 0, 0),
        Instruction::POP2 => (0x58, 0, 0),
        Instruction::PUTFIELD(a) => (0xb5, *a as u32, 0),
        Instruction::PUTSTATIC(a) => (0xb3, *a as u32, 0),
        Instruction::RET(a) => (0xa9, *a as u32, 0),
        Instruction::RETURN => (0xb1, 0, 0),
        Instruction::SALOAD => (0x35, 0, 0),
        Instruction::SASTORE => (0x56, 0, 0),
        Instruction::SIPUSH(a) => (0x11, *a as u32, 0),
        Instruction::SWAP => (0x5f, 0, 0),
        Instruction::TABLESWITCH => (0xaa, 0, 0),
        Instruction::WIDE => (0xc4, 0, 0),
    }
}

/// The instruction with opcode `op` and the operands given.
pub fn make_insn(op: u8, a: u32, b: u8, pairs: Vec<(i32, i32)>) -> (r: Instruction)
    requires
        fits(Insn { op, a, b, pairs: pairs@ }),
    ensures
        r@ == (Insn { op, a, b, pairs: pairs@ }),
{
    proof {
        lemma_bits_signed32(a);
        lemma_bits_signed8(b);
    }
    let r = match op {
        0x32 => Instruction::AALOAD,
        0x53 => Instruction::AASTORE,
        0x01 => Instruction::ACONST_NULL,
        0x19 => Instruction::ALOAD(a as u8),
        0x2a => Instruction::ALOAD_0,
        0x2b => Instruction::ALOAD_1,
        0x2c => Instruction::ALOAD_2,
        0x2d => Instruction::ALOAD_3,
        0xbd => Instruction::ANEWARRAY(a as u16),
        0xb0 => Instruction::ARETURN,
        0xbe => Instruction::ARRAYLENGTH,
        0x3a => Instruction::ASTORE(a as u8),
        0x4b => Instruction::ASTORE_0,
        0x4c => Instruction::ASTORE_1,
        0x4d => Instruction::ASTORE_2,
        0x4e => Instruction::ASTORE_3,
        0xbf => Instruction::ATHROW,
        0x33 => Instruction::BALOAD,
        0x54 => Instruction::BASTORE,
        0x10 => Instruction::BIPUSH,
        0x34 => Instruction::CALOAD,
        0x55 => Instruction::CASTORE,
        0xc0 => Instruction::CHECKCAST(a as u16),
        0x90 => Instruction::D2F,
        0x8e => Instruction::D2I,
        0x8f => Instruction::D2L,
        0x63 => Instruction::DADD,
        0x31 => Instruction::DALOAD,
        0x52 => Instruction::DASTORE,
        0x97 => Instruction::DCMPL,
        0x98 => Instruction::DCMPG,
        0x0e => Instruction::DCONST_0,
        0x0f => Instruction::DCONST_1,
        0x6f => Instruction::DDIV,
        0x18 => Instruction::DLOAD(a as u8),
        0x26 => Instruction::DLOAD_0,
        0x27 => Instruction::DLOAD_1,
        0x28 => Instruction::DLOAD_2,
        0x29 => Instruction::DLOAD_3,
        0x6b => Instruction::DMUL,
        0x77 => Instruction::DNEG,
        0x73 => Instruction::DREM,
        0xaf => Instruction::DRETURN,
        0x39 => Instruction::DSTORE(a as u8),
        0x47 => Instruction::DSTORE_0,
        0x48 => Instruction::DSTORE_1,
        0x49 => Instruction::DSTORE_2,
        0x4a => Instruction::DSTORE_3,
        0x67 => Instruction::DSUB,
        0x59 => Instruction::DUP,
        0x5a => Instruction::DUP_X1,
        0x5b => Instruction::DUP_X2,
        0x5c => Instruction::DUP2,
        0x5d => Instruction::DUP2_X1,
        0x5e => Instruction::DUP2_X2,
        0x8d => Instruction::F2D,
        0x8b => Instruction::F2I,
        0x8c => Instruction::F2L,
        0x62 => Instruction::FADD,
        0x30 => Instruction::FALOAD,
        0x51 => Instruction::FASTORE,
        0x95 => Instruction::FCMPL,
        0x96 => Instruction::FCMPG,
        0x0b => Instruction::FCONST_0,
        0x0c => Instruction::FCONST_1,
        0x0d => Instruction::FCONST_2,
        0x6e => Instruction::FDIV,
        0x17 => Instruction::FLOAD(a as u8),
        0x22 => Instruction::FLOAD_0,
        0x23 => Instruction::FLOAD_1,
        0x24 => Instruction::FLOAD_2,
        0x25 => Instruction::FLOAD_3,
        0x6a => Instruction::FMUL,
        0x76 => Instruction::FNEG,
        0x72 => Instruction::FREM,
        0xae => Instruction::FRETURN,
        0x38 => Instruction::FSTORE(a as u8),
        0x43 => Instruction::FSTORE_0,
        0x44 => Instruction::FSTORE_1,
        0x45 => Instruction::FSTORE_2,
        0x46 => Instruction::FSTORE_3,
        0x66 => Instruction::FSUB,
        0xb4 => Instruction::GETFIELD(a as u16),
        0xb2 => Instruction::GETSTATIC(a as u16),
        0xa7 => Instruction::GOTO(a as u16),
        0xc8 => Instruction::GOTO_W(a),
        0x91 => Instruction::I2B,
        0x92 => Instruction::I2C,
        0x87 => Instruction::I2D,
        0x86 => Instruction::I2F,
        0x85 => Instruction::I2L,
        0x93 => Instruction::I2S,
        0x60 => Instruction::IADD,
        0x2e => Instruction::IALOAD,
        0x7e => Instruction::IAND,
        0x4f => Instruction::IASTORE,
        0x02 => Instruction::ICONST_M1,
        0x03 => Instruction::ICONST_0,
        0x04 => Instruction::ICONST_1,
        0x05 => Instruction::ICONST_2,
        0x06 => Instruction::ICONST_3,
        0x07 => Instruction::ICONST_4,
        0x08 => Instruction::ICONST_5,
        0x6c => Instruction::IDIV,
        0xa5 => Instruction::IF_ACMPEQ(a as u16),
        0xa6 => Instruction::IF_ACMPNE(a as u16),
        0x9f => Instruction::IF_ICMPEQ(a as u16),
        0xa0 => Instruction::IF_ICMPNE(a as u16),
        0xa1 => Instruction::IF_ICMPLT(a as u16),
        0xa2 => Instruction::IF_ICMPGE(a as u16),
        0xa3 => Instruction::IF_ICMPGT(a as u16),
        0xa4 => Instruction::IF_ICMPLE(a as u16),
        0x99 => Instruction::IFEQ(a as u16),
        0x9a => Instruction::IFNE(a as u16),
        0x9b => Instruction::IFLT(a as u16),
        0x9c => Instruction::IFGE(a as u16),
        0x9d => Instruction::IFGT(a as u16),
        0x9e => Instruction::IFLE(a as u16),
        0xc7 => Instruction::IFNONNULL(a as u16),
        0xc6 => Instruction::IFNULL(a as u16),
        0x84 => Instruction::IINC(a as u8, i8_of_bits(b)),
        0x15 => Instruction::ILOAD(a as u8),
        0x1a => Instruction::ILOAD_0,
        0x1b => Instruction::ILOAD_1,
        0x1c => Instruction::ILOAD_2,
        0x1d => Instruction::ILOAD_3,
        0x68 => Instruction::IMUL,
        0x74 => Instruction::INEG,
        0xc1 => Instruction::INSTANCEOF(a as u16),
        0xba => Instruction::INVOKEDYNAMIC(a as u16),
        0xb9 => Instruction::INVOKEINTERFACE(a as u16, b),
        0xb7 => Instruction::INVOKESPECIAL(a as u16),
        0xb8 => Instruction::INVOKESTATIC(a as u16),
        0xb6 => Instruction::INVOKEVIRTUAL(a as u16),
        0x80 => Instruction::IOR,
        0x70 => Instruction::IREM,
        0xac => Instruction::IRETURN,
        0x78 => Instruction::ISHL,
        0x7a => Instruction::ISHR,
        0x36 => Instruction::ISTORE(a as u8),
        0x3b => Instruction::ISTORE_0,
        0x3c => Instruction::ISTORE_1,
        0x3d => Instruction::ISTORE_2,
        0x3e => Instruction::ISTORE_3,
        0x64 => Instruction::ISUB,
        0x7c => Instruction::IUSHR,
        0x82 => Instruction::IXOR,
        0xa8 => Instruction::JSR(a as u16),
        0xc9 => Instruction::JSR_W(a),
        0x8a => Instruction::L2D,
        0x89 => Instruction::L2F,
        0x88 => Instruction::L2I,
        0x61 => Instruction::LADD,
        0x2f => Instruction::LALOAD,
        0x7f => Instruction::LAND,
        0x50 => Instruction::LASTORE,
        0x94 => Instruction::LCMP,
        0x09 => Instruction::LCONST_0,
        0x0a => Instruction::LCONST_1,
        0x12 => Instruction::LDC(a as u8),
        0x13 => Instruction::LDC_W(a as u16),
        0x14 => Instruction::LDC2_W(a as u16),
        0x6d => Instruction::LDIV,
        0x16 => Instruction::LLOAD,
        0x1e => Instruction::LLOAD_0,
        0x1f => Instruction::LLOAD_1,
        0x20 => Instruction::LLOAD_2,
        0x21 => Instruction::LLOAD_3,
        0x69 => Instruction::LMUL,
        0x75 => Instruction::LNEG,
        0xab => Instruction::LOOKUPSWITCH(i32_of_bits(a), pairs),
        0x81 => Instruction::LOR,
        0x71 => Instruction::LREM,
        0xad => Instruction::LRETURN,
        0x79 => Instruction::LSHL,
        0x7b => Instruction::LSHR,
        0x37 => Instruction::LSTORE(a as u8),
        0x3f => Instruction::LSTORE_0,
        0x40 => Instruction::LSTORE_1,
        0x41 => Instruction::LSTORE_2,
        0x42 => Instruction::LSTORE_3,
        0x65 => Instruction::LSUB,
        0x7d => Instruction::LUSHR,
        0x83 => Instruction::LXOR,
        0xc2 => Instruction::MONITORENTER,
        0xc3 => Instruction::MONITOREXIT,
        0xc5 => Instruction::MULTIANEWARRAY(a as u16, b),
        0xbb => Instruction::NEW(a as u16),
        0xbc => Instruction::NEWARRAY(a as u8),
        0x00 => Instruction::NOP,
        0x57 => Instruction::POP,
        0x58 => Instruction::POP2,
        0xb5 => Instruction::PUTFIELD(a as u16),
        0xb3 => Instruction::PUTSTATIC(a as u16),
        0xa9 => Instruction::RET(a as u8),
        0xb1 => Instruction::RETURN,
        0x35 => Instruction::SALOAD,
        0x56 => Instruction::SASTORE,
        0x11 => Instruction::SIPUSH(a as u16),
        0x5f => Instruction::SWAP,
        _ => Instruction::NOP,
    };
    assert(r@.pairs =~= pairs@);
    r
}

/// The number of padding bytes after a switch opcode at offset `off` of
/// the code array: what follows starts at a multiple of four.
pub open spec fn padding(off: int) -> int {
    3 - off % 4
}

/// `n` zero bytes.
pub open spec fn zeros(n: int) -> Seq<u8> {
    Seq::new(n as nat, |i: int| 0u8)
}

/// The bytes of the instruction `i` at offset `off` of the code array.
#[verifier::opaque]
pub open spec fn enc_insn(i: Insn, off: int) -> Result<Seq<u8>, Flaw> {
    if !fits(i) {
        Err(Flaw::UnsupportedInstruction)
    } else {
        match shape_of(i.op) {
            Shape::Plain => Ok(seq![i.op]),
            Shape::U8 => Ok(seq![i.op, i.a as u8]),
            Shape::U16 => Ok(seq![i.op] + be16(i.a as u16)),
            Shape::U32 => Ok(seq![i.op] + be32(i.a)),
            Shape::U8I8 => Ok(seq![i.op, i.a as u8, i.b]),
            Shape::U16U8 => Ok(seq![i.op] + be16(i.a as u16) + seq![i.b]),
            Shape::Lookup => if i.pairs.len() <= 0xFFFF_FFFF {
                then(
                    Ok(seq![i.op] + zeros(padding(off)) + be32(i.a) + be32(i.pairs.len() as u32)),
                    enc_all(i.pairs),
                )
            } else {
                Err(Flaw::CountOutOfRange)
            },
            Shape::Unsupported => Err(Flaw::UnsupportedInstruction),
        }
    }
}

/// The instruction that starts at `pos` of a code array that starts at
/// `base`.
#[verifier::opaque]
pub open spec fn dec_insn(s: Seq<u8>, pos: int, end: int, base: int) -> Result<(Insn, int), Fault> {
    match take_u8(s, pos, end) {
        Err(e) => Err(e),
        Ok((op, p)) => match shape_of(op) {
            Shape::Plain => Ok((plain(op), p)),
            Shape::U8 => match take_u8(s, p, end) {
                Err(e) => Err(e),
                Ok((a, q)) => Ok((with_a(op, a as u32), q)),
            },
            Shape::U16 => match take_u16(s, p, end) {
                Err(e) => Err(e),
                Ok((a, q)) => Ok((with_a(op, a as u32), q)),
            },
            Shape::U32 => match take_u32(s, p, end) {
                Err(e) => Err(e),
                Ok((a, q)) => Ok((with_a(op, a), q)),
            },
            Shape::U8I8 => match take_u8(s, p, end) {
                Err(e) => Err(e),
                Ok((a, q)) => match take_u8(s, q, end) {
                    Err(e) => Err(e),
                    Ok((b, r)) => Ok((with_ab(op, a as u32, b), r)),
                },
            },
            Shape::U16U8 => match take_u16(s, p, end) {
                Err(e) => Err(e),
                Ok((a, q)) => match take_u8(s, q, end) {
                    Err(e) => Err(e),
                    Ok((b, r)) => Ok((with_ab(op, a as u32, b), r)),
                },
            },
            Shape::Lookup => match take_bytes(s, p, end, padding(pos - base)) {
                Err(e) => Err(e),
                Ok((_, q)) => match take_u32(s, q, end) {
                    Err(e) => Err(e),
                    Ok((d, r)) => match take_u32(s, r, end) {
                        Err(e) => Err(e),
                        Ok((n, t)) => match dec_all::<(i32, i32)>(s, t, end, n as int) {
                            Err(e) => Err(e),
                            Ok((pairs, u)) => Ok((Insn { op, a: d, b: 0, pairs }, u)),
                        },
                    },
                },
            },
            Shape::Unsupported => Err(fault(FaultKind::UnsupportedOpcode, pos)),
        },
    }
}

/// The bytes of the instructions of `code`, the first of them at offset
/// `off` of the code array.
pub open spec fn enc_code(code: Seq<Insn>, off: int) -> Result<Seq<u8>, Flaw>
    decreases code.len(),
{
    if code.len() == 0 {
        Ok(Seq::empty())
    } else {
        match enc_insn(code[0], off) {
            Err(e) => Err(e),
            Ok(x) => then(Ok(x), enc_code(code.skip(1), off + x.len())),
        }
    }
}

/// The instructions that fill the code array from `pos` to `end`.
pub open spec fn dec_code(s: Seq<u8>, pos: int, end: int, base: int) -> Result<(Seq<Insn>, int), Fault>
    decreases end - pos,
{
    if pos >= end {
        Ok((Seq::empty(), pos))
    } else {
        match dec_insn(s, pos, end, base) {
            Err(e) => Err(e),
            // An instruction takes its opcode at least and stays in the
            // region, so this branch is never taken.
            Ok((i, p)) => if p <= pos || p > end {
                Err(fault(FaultKind::LengthMismatch, pos))
            } else {
                prepend(seq![i], dec_code(s, p, end, base))
            },
        }
    }
}

/// Reads the instruction that starts at `pos` of a code array that
/// starts at `base`.
pub fn read_insn(b: &[u8], pos: usize, end: usize, base: usize) -> (r: Result<
    (Instruction, usize),
    Fault,
>)
    requires
        in_region(b@, pos as int, end as int),
        base <= pos,
    ensures
        agrees(r, dec_insn(b@, pos as int, end as int, base as int), pos, end),
        r matches Ok((_, p)) ==> p > pos,
{
    reveal(dec_insn);
    let (op, p) = get_u8(b, pos, end)?;
    match shape(op) {
        Shape::Plain => Ok((make_insn(op, 0, 0, Vec::new()), p)),
        Shape::U8 => {
            let (a, q) = get_u8(b, p, end)?;
            Ok((make_insn(op, a as u32, 0, Vec::new()), q))
        },
        Shape::U16 => {
            let (a, q) = get_u16(b, p, end)?;
            Ok((make_insn(op, a as u32, 0, Vec::new()), q))
        },
        Shape::U32 => {
            let (a, q) = get_u32(b, p, end)?;
            Ok((make_insn(op, a, 0, Vec::new()), q))
        },
        Shape::U8I8 => {
            let (a, q) = get_u8(b, p, end)?;
            let (x, r) = get_u8(b, q, end)?;
            Ok((make_insn(op, a as u32, x, Vec::new()), r))
        },
        Shape::U16U8 => {
            let (a, q) = get_u16(b, p, end)?;
            let (x, r) = get_u8(b, q, end)?;
            Ok((make_insn(op, a as u32, x, Vec::new()), r))
        },
        Shape::Lookup => {
            let pad: usize = 3 - (pos - base) % 4;
            if end - p < pad {
                return Err(Fault { kind: FaultKind::Truncated, offset: p });
            }
            let q: usize = p + pad;
            let (d, r) = get_u32(b, q, end)?;
            let (n, t) = get_u32(b, r, end)?;
            let (pairs, u) = read_all::<(i32, i32)>(b, t, end, n as usize)?;
            Ok((make_insn(op, d, 0, pairs), u))
        },
        Shape::Unsupported => Err(Fault { kind: FaultKind::UnsupportedOpcode, offset: pos }),
    }
}

/// Appends the bytes of the instruction `i`, which stands at offset `off`
/// of the code array.
pub fn write_insn(out: &mut Vec<u8>, i: &Instruction, off: usize) -> (r: Result<(), Flaw>)
    ensures
        appended(r, enc_insn(i@, off as int), old(out)@, final(out)@),
{
    reveal(enc_insn);
    let ghost start = out@;
    let (op, a, b) = operands(i);
    match shape(op) {
        Shape::Plain => {
            put_u8(out, op);
            Ok(())
        },
        Shape::U8 => {
            put_u8(out, op);
            put_u8(out, a as u8);
            assert(out@ =~= start + seq![op, a as u8]);
            Ok(())
        },
        Shape::U16 => {
            put_u8(out, op);
            put_u16(out, a as u16);
            assert(out@ =~= start + (seq![op] + be16(a as u16)));
            Ok(())
        },
        Shape::U32 => {
            put_u8(out, op);
            put_u32(out, a);
            assert(out@ =~= start + (seq![op] + be32(a)));
            Ok(())
        },
        Shape::U8I8 => {
            put_u8(out, op);
            put_u8(out, a as u8);
            put_u8(out, b);
            assert(out@ =~= start + seq![op, a as u8, b]);
            Ok(())
        },
        Shape::U16U8 => {
            put_u8(out, op);
            put_u16(out, a as u16);
            put_u8(out, b);
            assert(out@ =~= start + (seq![op] + be16(a as u16) + seq![b]));
            Ok(())
        },
        Shape::Lookup => {
            match i {
                Instruction::LOOKUPSWITCH(_, pairs) => {
                    if pairs.len() > 0xFFFF_FFFF {
                        return Err(Flaw::CountOutOfRange);
                    }
                    put_u8(out, op);
                    let pad: usize = 3 - off % 4;
                    let mut k: usize = 0;
                    while k < pad
                        invariant
                            k <= pad,
                            pad == padding(off as int),
                            out@ == start + seq![op] + zeros(k as int),
                        decreases pad - k,
                    {
                        put_u8(out, 0);
                        k = k + 1;
                        assert(out@ =~= start + seq![op] + zeros(k as int));
                    }
                    put_u32(out, a);
                    put_u32(out, pairs.len() as u32);
                    let ghost head = seq![op] + zeros(padding(off as int)) + be32(a) + be32(
                        pairs@.len() as u32,
                    );
                    assert(out@ =~= start + head);
                    write_all(out, pairs)?;
                    proof {
                        let e = enc_all(pairs@)->Ok_0;
                        assert(start + head + e =~= start + (head + e));
                    }
                    Ok(())
                },
                _ => Err(Flaw::UnsupportedInstruction),
            }
        },
        Shape::Unsupported => Err(Flaw::UnsupportedInstruction),
    }
}

/// After the instructions before `i`, whose bytes are `acc`, the one at
/// `i` stands at offset `acc.len()`.
proof fn lemma_enc_code_step(code: Seq<Insn>, i: int, acc: Seq<u8>)
    requires
        0 <= i < code.len(),
        enc_code(code, 0) == then(Ok(acc), enc_code(code.skip(i), acc.len() as int)),
    ensures
        match enc_insn(code[i], acc.len() as int) {
            Ok(bytes) => enc_code(code, 0) == then(
                Ok(acc + bytes),
                enc_code(code.skip(i + 1), (acc + bytes).len() as int),
            ),
            Err(f) => enc_code(code, 0) == Err::<Seq<u8>, Flaw>(f),
        },
{
    let tail = code.skip(i);
    assert(tail[0] == code[i]);
    assert(tail.skip(1) =~= code.skip(i + 1));
    if let Ok(bytes) = enc_insn(code[i], acc.len() as int) {
        if let Ok(rest) = enc_code(code.skip(i + 1), (acc.len() + bytes.len()) as int) {
            assert(acc + (bytes + rest) =~= (acc + bytes) + rest);
        }
    }
}

/// Appends the bytes of the instructions of a code array to `out`, which
/// holds nothing before the array.
pub fn write_code(out: &mut Vec<u8>, code: &Vec<Instruction>) -> (r: Result<(), Flaw>)
    requires
        old(out)@.len() == 0,
    ensures
        appended(r, enc_code(code_view(code@), 0), old(out)@, final(out)@),
{
    let ghost views = code_view(code@);
    let mut i: usize = 0;
    proof {
        assert(out@ =~= Seq::empty());
        assert(views.skip(0) =~= views);
        if let Ok(t) = enc_code(views, 0) {
            assert(out@ + t =~= t);
        }
    }
    while i < code.len()
        invariant
            i <= code.len(),
            views == code_view(code@),
            enc_code(views, 0) == then(Ok(out@), enc_code(views.skip(i as int), out@.len() as int)),
        decreases code.len() - i,
    {
        let ghost acc = out@;
        proof {
            lemma_enc_code_step(views, i as int, acc);
            assert(views[i as int] == code@[i as int]@);
        }
        let off = out.len();
        write_insn(out, &code[i], off)?;
        i = i + 1;
    }
    proof {
        assert(views.skip(views.len() as int) =~= Seq::empty());
        assert(out@ + Seq::<u8>::empty() =~= out@);
        assert(old(out)@ + out@ =~= out@);
    }
    Ok(())
}

/// Reads the instructions that fill the code array from `pos` to `end`.
pub fn read_code(b: &[u8], pos: usize, end: usize) -> (r: Result<(Vec<Instruction>, usize), Fault>)
    requires
        in_region(b@, pos as int, end as int),
    ensures
        match r {
            Ok((v, p)) => dec_code(b@, pos as int, end as int, pos as int) == Ok::<(Seq<Insn>, int), Fault>(
                (code_view(v@), p as int),
            ) && p == end,
            Err(e) => dec_code(b@, pos as int, end as int, pos as int) == Err::<(Seq<Insn>, int), Fault>(
                e,
            ),
        },
{
    let mut v: Vec<Instruction> = Vec::new();
    let mut p: usize = pos;
    assert(code_view(v@) =~= Seq::empty());
    while p < end
        invariant
            pos <= p <= end,
            in_region(b@, p as int, end as int),
            dec_code(b@, pos as int, end as int, pos as int) == prepend(
                code_view(v@),
                dec_code(b@, p as int, end as int, pos as int),
            ),
        decreases end - p,
    {
        let ghost before = code_view(v@);
        let (x, q) = read_insn(b, p, end, pos)?;
        let ghost xv = x@;
        v.push(x);
        proof {
            assert(code_view(v@) =~= before + seq![xv]);
            if let Ok((tail, _)) = dec_code(b@, q as int, end as int, pos as int) {
                assert(before + (seq![xv] + tail) =~= code_view(v@) + tail);
            }
        }
        p = q;
    }
    proof {
        assert(code_view(v@) + Seq::<Insn>::empty() =~= code_view(v@));
    }
    Ok((v, p))
}

/// The padding of a switch is at most three bytes.
pub proof fn lemma_padding(off: int)
    requires
        0 <= off,
    ensures
        0 <= padding(off) <= 3,
        (off + 1 + padding(off)) % 4 == 0,
{
}

/// An instruction that was written at offset `pos - base` of its code
/// array is read back, and the reader stops where its bytes end.
pub proof fn lemma_insn_round_trip(i: Insn, s: Seq<u8>, pos: int, end: int, base: int)
    requires
        0 <= base <= pos,
        enc_insn(i, pos - base) matches Ok(e) && occurs(s, pos, e) && pos + e.len() <= end,
    ensures
        dec_insn(s, pos, end, base) == Ok::<(Insn, int), Fault>(
            (i, pos + enc_insn(i, pos - base)->Ok_0.len()),
        ),
        enc_insn(i, pos - base)->Ok_0.len() >= 1,
{
    reveal(enc_insn);
    reveal(dec_insn);
    let e = enc_insn(i, pos - base)->Ok_0;
    match shape_of(i.op) {
        Shape::Plain => {
            assert(s[pos + 0] == e[0]);
            assert(i.pairs =~= Seq::empty());
        },
        Shape::U8 => {
            assert(s[pos + 0] == e[0]);
            assert(s[pos + 1] == e[1]);
            assert(i.pairs =~= Seq::empty());
        },
        Shape::U16 => {
            lemma_occurs_split(s, pos, seq![i.op], be16(i.a as u16));
            lemma_occurs_u8(s, pos, end, i.op);
            lemma_occurs_u16(s, pos + 1, end, i.a as u16);
            assert(i.pairs =~= Seq::empty());
        },
        Shape::U32 => {
            lemma_occurs_split(s, pos, seq![i.op], be32(i.a));
            lemma_occurs_u8(s, pos, end, i.op);
            lemma_occurs_u32(s, pos + 1, end, i.a);
            assert(i.pairs =~= Seq::empty());
        },
        Shape::U8I8 => {
            assert(s[pos + 0] == e[0]);
            assert(s[pos + 1] == e[1]);
            assert(s[pos + 2] == e[2]);
            assert(i.pairs =~= Seq::empty());
        },
        Shape::U16U8 => {
            lemma_occurs_split(s, pos, seq![i.op] + be16(i.a as u16), seq![i.b]);
            lemma_occurs_split(s, pos, seq![i.op], be16(i.a as u16));
            lemma_occurs_u8(s, pos, end, i.op);
            lemma_occurs_u16(s, pos + 1, end, i.a as u16);
            lemma_occurs_u8(s, pos + 3, end, i.b);
            assert(i.pairs =~= Seq::empty());
        },
        Shape::Lookup => {
            let pad = padding(pos - base);
            lemma_padding(pos - base);
            let n = i.pairs.len() as u32;
            let h1 = seq![i.op] + zeros(pad);
            let h2 = h1 + be32(i.a);
            let head = h2 + be32(n);
            let body = enc_all(i.pairs)->Ok_0;
            lemma_occurs_split(s, pos, head, body);
            lemma_occurs_split(s, pos, h2, be32(n));
            lemma_occurs_split(s, pos, h1, be32(i.a));
            lemma_occurs_split(s, pos, seq![i.op], zeros(pad));
            lemma_occurs_u8(s, pos, end, i.op);
            lemma_occurs_u32(s, pos + 1 + pad, end, i.a);
            lemma_occurs_u32(s, pos + 5 + pad, end, n);
            lemma_all_round_trip::<(i32, i32)>(i.pairs, s, pos + 9 + pad, end);
        },
        Shape::Unsupported => {},
    }
}

/// An instruction that was read has an encoding at the offset where it
/// was read, as long as the bytes that were read.
pub proof fn lemma_insn_encodable(s: Seq<u8>, pos: int, end: int, base: int)
    requires
        in_region(s, pos, end),
        0 <= base <= pos,
        dec_insn(s, pos, end, base) is Ok,
    ensures
        ({
            let (i, p) = dec_insn(s, pos, end, base)->Ok_0;
            &&& pos < p <= end
            &&& enc_insn(i, pos - base) matches Ok(e) && e.len() == p - pos
        }),
{
    reveal(enc_insn);
    reveal(dec_insn);
    let (op, p) = take_u8(s, pos, end)->Ok_0;
    match shape_of(op) {
        Shape::Lookup => {
            let pad = padding(pos - base);
            lemma_padding(pos - base);
            let (_, q) = take_bytes(s, p, end, pad)->Ok_0;
            let (_, r) = take_u32(s, q, end)->Ok_0;
            let (n, t) = take_u32(s, r, end)->Ok_0;
            lemma_all_encodable::<(i32, i32)>(s, t, end, n as int);
        },
        _ => {},
    }
}

/// The declared length of an instruction that is no switch is the number
/// of bytes that the decoder takes for it, and the length that the table
/// has for its opcode.
pub proof fn lemma_declared_len_is_consumed(s: Seq<u8>, pos: int, end: int, base: int)
    requires
        dec_insn(s, pos, end, base) is Ok,
        shape_of(dec_insn(s, pos, end, base)->Ok_0.0.op) != Shape::Lookup,
    ensures
        dec_insn(s, pos, end, base)->Ok_0.1 - pos == declared_len(dec_insn(s, pos, end, base)->Ok_0.0),
        fixed_len(dec_insn(s, pos, end, base)->Ok_0.0.op) == Some(
            declared_len(dec_insn(s, pos, end, base)->Ok_0.0),
        ),
{
    reveal(dec_insn);
}

/// A `LOOKUPSWITCH` takes the opcode, up to three bytes of padding, eight
/// bytes of default and count, and eight bytes for each pair.
pub proof fn lemma_lookup_consumed(s: Seq<u8>, pos: int, end: int, base: int)
    requires
        in_region(s, pos, end),
        0 <= base <= pos,
        dec_insn(s, pos, end, base) is Ok,
        shape_of(dec_insn(s, pos, end, base)->Ok_0.0.op) == Shape::Lookup,
    ensures
        ({
            let (i, p) = dec_insn(s, pos, end, base)->Ok_0;
            p - pos == 1 + padding(pos - base) + 8 + 8 * i.pairs.len()
        }),
{
    reveal(dec_insn);
    let (op, p) = take_u8(s, pos, end)->Ok_0;
    let pad = padding(pos - base);
    lemma_padding(pos - base);
    let (_, q) = take_bytes(s, p, end, pad)->Ok_0;
    let (_, r) = take_u32(s, q, end)->Ok_0;
    let (n, t) = take_u32(s, r, end)->Ok_0;
    lemma_pairs_consumed(s, t, end, n as int);
}

proof fn lemma_pairs_consumed(s: Seq<u8>, pos: int, end: int, n: int)
    requires
        0 <= n,
        dec_all::<(i32, i32)>(s, pos, end, n) is Ok,
    ensures
        ({
            let (pairs, p) = dec_all::<(i32, i32)>(s, pos, end, n)->Ok_0;
            pairs.len() == n && p == pos + 8 * n
        }),
    decreases n,
{
    if n > 0 {
        lemma_pairs_consumed(s, pos + 8, end, n - 1);
    }
}

/// A code array that was written is read back: the reader stops at its
/// end.
pub proof fn lemma_code_round_trip(code: Seq<Insn>, s: Seq<u8>, pos: int, end: int, base: int)
    requires
        0 <= base <= pos,
        enc_code(code, pos - base) matches Ok(e) && occurs(s, pos, e) && pos + e.len() == end,
    ensures
        dec_code(s, pos, end, base) == Ok::<(Seq<Insn>, int), Fault>((code, end)),
    decreases code.len(),
{
    if code.len() == 0 {
        assert(code =~= Seq::empty());
    } else {
        let first = enc_insn(code[0], pos - base)->Ok_0;
        let rest = enc_code(code.skip(1), pos - base + first.len())->Ok_0;
        lemma_occurs_split(s, pos, first, rest);
        lemma_insn_round_trip(code[0], s, pos, end, base);
        lemma_code_round_trip(code.skip(1), s, pos + first.len(), end, base);
        assert(seq![code[0]] + code.skip(1) =~= code);
    }
}

/// A code array that was read has an encoding, as long as the array.
pub proof fn lemma_code_encodable(s: Seq<u8>, pos: int, end: int, base: int)
    requires
        in_region(s, pos, end),
        0 <= base <= pos,
        dec_code(s, pos, end, base) is Ok,
    ensures
        ({
            let (code, p) = dec_code(s, pos, end, base)->Ok_0;
            &&& p == end
            &&& enc_code(code, pos - base) matches Ok(e) && e.len() == end - pos
        }),
    decreases end - pos,
{
    if pos < end {
        let (i, p) = dec_insn(s, pos, end, base)->Ok_0;
        lemma_insn_encodable(s, pos, end, base);
        lemma_code_encodable(s, p, end, base);
        let (rest, _) = dec_code(s, p, end, base)->Ok_0;
        let code = seq![i] + rest;
        assert(code.skip(1) =~= rest);
        assert(code[0] == i);
    }
}

} // verus!
