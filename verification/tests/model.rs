use jvmti::bytecode::classfile::AccessFlags;
use jvmti::bytecode::classfile::Attribute;
use jvmti::bytecode::classfile::ClassAccessFlags;
use jvmti::bytecode::classfile::Classfile;
use jvmti::bytecode::classfile::ClassfileVersion;
use jvmti::bytecode::classfile::Constant;
use jvmti::bytecode::classfile::ConstantPool;
use jvmti::bytecode::classfile::ConstantPoolIndex;
use jvmti::bytecode::classfile::Field;
use jvmti::bytecode::classfile::FieldAccessFlags;
use jvmti::bytecode::classfile::InnerClassAccessFlags;
use jvmti::bytecode::classfile::Instruction;
use jvmti::bytecode::classfile::Method;
use jvmti::bytecode::classfile::MethodAccessFlags;
use jvmti::bytecode::classfile::ParameterAccessFlags;
use jvmti::bytecode::classfile::ReferenceKind;

fn sample_pool() -> ConstantPool {
    ConstantPool::new(vec![
        Constant::Long(42),
        Constant::Placeholder,
        Constant::Utf8(vec![b'x']),
        Constant::Integer(7),
        Constant::Utf8(vec![0xC0, 0x80]),
    ])
}

#[test]
fn new_classfile_is_empty_and_of_the_default_version() {
    let cf = Classfile::new();
    assert_eq!(cf.version, ClassfileVersion::new(52, 0));
    assert_eq!(cf.constant_pool.cp_len(), 0);
    assert_eq!(cf.access_flags, AccessFlags::of(0));
    assert_eq!(cf.this_class, ConstantPoolIndex::new(0));
    assert_eq!(cf.super_class, ConstantPoolIndex::new(0));
    assert!(cf.interfaces.is_empty());
    assert!(cf.fields.is_empty());
    assert!(cf.methods.is_empty());
    assert!(cf.attributes.is_empty());
    assert_eq!(Classfile::default(), cf);
}

#[test]
fn default_version_is_52_0() {
    let v = ClassfileVersion::default();
    assert_eq!(v.major_version, 52);
    assert_eq!(v.minor_version, 0);
}

#[test]
fn version_new_takes_major_first() {
    let v = ClassfileVersion::new(51, 3);
    assert_eq!(v.major_version, 51);
    assert_eq!(v.minor_version, 3);
}

#[test]
fn versions_are_ordered_by_major_then_minor() {
    assert!(ClassfileVersion::new(52, 0) > ClassfileVersion::new(51, 9));
    assert!(ClassfileVersion::new(52, 1) > ClassfileVersion::new(52, 0));
    assert!(ClassfileVersion::new(45, 3) < ClassfileVersion::new(46, 0));
    assert!(ClassfileVersion::new(52, 0).at_least(&ClassfileVersion::new(52, 0)));
    assert!(ClassfileVersion::new(52, 0).at_least(&ClassfileVersion::new(51, 9)));
    assert!(!ClassfileVersion::new(51, 9).at_least(&ClassfileVersion::new(52, 0)));
    assert!(!ClassfileVersion::new(52, 0).at_least(&ClassfileVersion::new(52, 1)));
}

#[test]
fn cp_len_counts_placeholders() {
    assert_eq!(sample_pool().cp_len(), 5);
    assert_eq!(ConstantPool::default().cp_len(), 0);
}

#[test]
fn constant_pool_count_is_one_more_than_cp_len() {
    assert_eq!(sample_pool().constant_pool_count(), Some(6));
    assert_eq!(ConstantPool::default().constant_pool_count(), Some(1));
    let boundary = ConstantPool::new(vec![
        Constant::Long(42),
        Constant::Placeholder,
        Constant::Utf8(vec![b'x']),
    ]);
    assert_eq!(boundary.constant_pool_count(), Some(4));
    assert_eq!(ConstantPool::new(vec![Constant::Integer(0); 0xFFFE]).constant_pool_count(), Some(0xFFFF));
    assert_eq!(ConstantPool::new(vec![Constant::Integer(0); 0xFFFF]).constant_pool_count(), None);
}

#[test]
fn get_utf8_gives_bytes_of_utf8_constants_only() {
    let pool = sample_pool();
    assert_eq!(pool.get_utf8(2), Some(&vec![b'x']));
    assert_eq!(pool.get_utf8(0), None);
    assert_eq!(pool.get_utf8(1), None);
    assert_eq!(pool.get_utf8(3), None);
    assert_eq!(pool.get_utf8(5), None);
    assert_eq!(pool.get_utf8(65535), None);
}

#[test]
fn get_utf8_string_converts_strict_utf8() {
    let pool = ConstantPool::new(vec![
        Constant::Utf8("Code".as_bytes().to_vec()),
        Constant::Utf8("h\u{e9}llo \u{4e16}".as_bytes().to_vec()),
        Constant::Utf8(vec![]),
    ]);
    assert_eq!(pool.get_utf8_string(0), Some(String::from("Code")));
    assert_eq!(pool.get_utf8_string(1), Some(String::from("h\u{e9}llo \u{4e16}")));
    assert_eq!(pool.get_utf8_string(2), Some(String::new()));
}

#[test]
fn get_utf8_string_is_absent_for_bytes_that_are_not_strict_utf8() {
    let pool = sample_pool();
    // The modified UTF-8 form of U+0000 is no strict UTF-8.
    assert_eq!(pool.get_utf8(4), Some(&vec![0xC0, 0x80]));
    assert_eq!(pool.get_utf8_string(4), None);
    assert_eq!(pool.get_utf8_string(3), None);
    assert_eq!(pool.get_utf8_string(9), None);
    let broken = ConstantPool::new(vec![Constant::Utf8(vec![b'a', 0xFF, b'b'])]);
    assert_eq!(broken.get_utf8_string(0), None);
}

#[test]
fn get_utf8_index_is_always_absent() {
    assert_eq!(sample_pool().get_utf8_index(), None);
    assert_eq!(ConstantPool::default().get_utf8_index(), None);
}

#[test]
fn resolve_index_is_absent_for_placeholders_and_past_the_end() {
    let pool = sample_pool();
    assert_eq!(pool.resolve_index(&ConstantPoolIndex::new(0)), Some(&Constant::Long(42)));
    assert_eq!(pool.resolve_index(&ConstantPoolIndex::new(1)), None);
    assert_eq!(pool.resolve_index(&ConstantPoolIndex::new(2)), Some(&Constant::Utf8(vec![b'x'])));
    assert_eq!(pool.resolve_index(&ConstantPoolIndex::new(5)), None);
    assert_eq!(pool.resolve_index(&ConstantPoolIndex::new(usize::MAX)), None);
}

#[test]
fn resolve_slot_counts_slots_from_one() {
    let pool = sample_pool();
    assert_eq!(pool.resolve_slot(&ConstantPoolIndex::new(0)), None);
    assert_eq!(pool.resolve_slot(&ConstantPoolIndex::new(1)), Some(&Constant::Long(42)));
    assert_eq!(pool.resolve_slot(&ConstantPoolIndex::new(2)), None);
    assert_eq!(pool.resolve_slot(&ConstantPoolIndex::new(3)), Some(&Constant::Utf8(vec![b'x'])));
    assert_eq!(pool.resolve_slot(&ConstantPoolIndex::new(4)), Some(&Constant::Integer(7)));
    assert_eq!(pool.resolve_slot(&ConstantPoolIndex::new(6)), None);
    assert_eq!(pool.resolve_slot(&ConstantPoolIndex::new(usize::MAX)), None);
}

#[test]
fn boundary_pool_resolves_index_2_to_the_utf8_entry() {
    let pool = ConstantPool::new(vec![
        Constant::Long(42),
        Constant::Placeholder,
        Constant::Utf8(vec![b'x']),
    ]);
    assert_eq!(pool.cp_len(), 3);
    assert_eq!(pool.resolve_index(&ConstantPoolIndex::new(2)), Some(&Constant::Utf8(vec![b'x'])));
}

#[test]
fn cp_size_is_2_for_eight_byte_constants_and_0_for_placeholders() {
    assert_eq!(Constant::Long(1).cp_size(), 2);
    assert_eq!(Constant::Double(1).cp_size(), 2);
    assert_eq!(Constant::Placeholder.cp_size(), 0);
    assert_eq!(Constant::Integer(1).cp_size(), 1);
    assert_eq!(Constant::Float(1).cp_size(), 1);
    assert_eq!(Constant::Utf8(vec![]).cp_size(), 1);
    assert_eq!(Constant::Class(ConstantPoolIndex::new(1)).cp_size(), 1);
    assert_eq!(Constant::Unknown(99).cp_size(), 1);
}

#[test]
fn pool_index_default_is_zero() {
    assert_eq!(ConstantPoolIndex::default().idx, 0);
    assert_eq!(ConstantPoolIndex::new(17).idx, 17);
}

#[test]
fn reference_kind_numbers() {
    let kinds = [
        (1u8, ReferenceKind::GetField),
        (2, ReferenceKind::GetStatic),
        (3, ReferenceKind::PutField),
        (4, ReferenceKind::PutStatic),
        (5, ReferenceKind::InvokeVirtual),
        (6, ReferenceKind::InvokeStatic),
        (7, ReferenceKind::InvokeSpecial),
        (8, ReferenceKind::NewInvokeSpecial),
        (9, ReferenceKind::InvokeInterface),
    ];
    for (n, kind) in kinds {
        assert_eq!(ReferenceKind::from_u8(n), kind);
        assert_eq!(kind.to_u8(), n);
    }
    assert_eq!(ReferenceKind::from_u8(0), ReferenceKind::Unknown);
    assert_eq!(ReferenceKind::from_u8(10), ReferenceKind::Unknown);
    assert_eq!(ReferenceKind::from_u8(255), ReferenceKind::Unknown);
    assert_eq!(ReferenceKind::Unknown.to_u8(), 255);
}

#[test]
fn reference_kind_comes_back_from_its_number() {
    for n in 0..=255u8 {
        let kind = ReferenceKind::from_u8(n);
        assert_eq!(ReferenceKind::from_u8(kind.to_u8()), kind);
    }
}

#[test]
fn access_flags_set_has_clear() {
    let mut flags = AccessFlags::new();
    assert_eq!(flags.flags, 0);
    assert!(!flags.has_flag(0x0001));
    flags.set_flag(0x0001);
    flags.set_flag(0x0400);
    assert_eq!(flags.flags, 0x0401);
    assert!(flags.has_flag(0x0001));
    assert!(flags.has_flag(0x0400));
    assert!(!flags.has_flag(0x0010));
    flags.clear_flag(0x0001);
    assert_eq!(flags.flags, 0x0400);
    assert!(!flags.has_flag(0x0001));
    flags.clear_flag(0x0001);
    assert_eq!(flags.flags, 0x0400);
    assert_eq!(AccessFlags::default(), AccessFlags::of(0));
}

#[test]
fn has_flag_is_true_when_any_bit_of_the_mask_is_set() {
    let flags = AccessFlags::of(0x0021);
    assert!(flags.has_flag(0x0031));
    assert!(!flags.has_flag(0));
    assert!(!flags.has_flag(0x0400));
    assert!(AccessFlags::of(0xFFFF).has_flag(0x8000));
}

#[test]
fn flag_tables_hold_the_bits_of_the_format() {
    assert_eq!(ClassAccessFlags::Public.bits(), 0x0001);
    assert_eq!(ClassAccessFlags::Final.bits(), 0x0010);
    assert_eq!(ClassAccessFlags::Super.bits(), 0x0020);
    assert_eq!(ClassAccessFlags::Interface.bits(), 0x0200);
    assert_eq!(ClassAccessFlags::Abstract.bits(), 0x0400);
    assert_eq!(ClassAccessFlags::Synthetic.bits(), 0x1000);
    assert_eq!(ClassAccessFlags::Annotation.bits(), 0x2000);
    assert_eq!(ClassAccessFlags::Enum.bits(), 0x4000);
    assert_eq!(FieldAccessFlags::Private.bits(), 0x0002);
    assert_eq!(FieldAccessFlags::Protected.bits(), 0x0004);
    assert_eq!(FieldAccessFlags::Static.bits(), 0x0008);
    assert_eq!(FieldAccessFlags::Volatile.bits(), 0x0040);
    assert_eq!(FieldAccessFlags::Transient.bits(), 0x0080);
    assert_eq!(MethodAccessFlags::Synchronized.bits(), 0x0020);
    assert_eq!(MethodAccessFlags::Bridge.bits(), 0x0040);
    assert_eq!(MethodAccessFlags::Varargs.bits(), 0x0080);
    assert_eq!(MethodAccessFlags::Native.bits(), 0x0100);
    assert_eq!(MethodAccessFlags::Strict.bits(), 0x0800);
    assert_eq!(InnerClassAccessFlags::Interface.bits(), 0x0200);
    assert_eq!(InnerClassAccessFlags::Enum.bits(), 0x4000);
    assert_eq!(ParameterAccessFlags::Final.bits(), 0x0010);
    assert_eq!(ParameterAccessFlags::Synthetic.bits(), 0x1000);
    assert_eq!(ParameterAccessFlags::Mandated.bits(), 0x8000);
}

#[test]
fn flag_tables_work_with_access_flags() {
    let mut flags = AccessFlags::new();
    flags.set_flag(MethodAccessFlags::Public.bits());
    flags.set_flag(MethodAccessFlags::Static.bits());
    assert_eq!(flags.flags, 0x0009);
    assert!(flags.has_flag(MethodAccessFlags::Static.bits()));
    assert!(!flags.has_flag(MethodAccessFlags::Abstract.bits()));
}

#[test]
fn default_members_are_empty() {
    let f = Field::default();
    assert_eq!(f.access_flags, AccessFlags::of(0));
    assert_eq!(f.name_index, ConstantPoolIndex::new(0));
    assert_eq!(f.descriptor_index, ConstantPoolIndex::new(0));
    assert!(f.attributes.is_empty());
    let m = Method::default();
    assert_eq!(m.access_flags, AccessFlags::of(0));
    assert!(m.attributes.is_empty());
    assert_eq!(Attribute::Synthetic, Attribute::Synthetic);
}

#[test]
fn instruction_len_is_one_without_operands() {
    assert_eq!(Instruction::NOP.len(), 1);
    assert_eq!(Instruction::ICONST_1.len(), 1);
    assert_eq!(Instruction::IRETURN.len(), 1);
    assert_eq!(Instruction::BIPUSH.len(), 1);
    assert_eq!(Instruction::LLOAD.len(), 1);
    assert_eq!(Instruction::TABLESWITCH.len(), 1);
    assert_eq!(Instruction::WIDE.len(), 1);
    assert_eq!(Instruction::ARRAYLENGTH.len(), 1);
}

#[test]
fn instruction_len_counts_operand_widths() {
    assert_eq!(Instruction::ALOAD(1).len(), 2);
    assert_eq!(Instruction::LDC(1).len(), 2);
    assert_eq!(Instruction::NEWARRAY(10).len(), 2);
    assert_eq!(Instruction::RET(1).len(), 2);
    assert_eq!(Instruction::SIPUSH(300).len(), 3);
    assert_eq!(Instruction::GOTO(7).len(), 3);
    assert_eq!(Instruction::IINC(1, -1).len(), 3);
    assert_eq!(Instruction::INVOKEDYNAMIC(4).len(), 3);
    assert_eq!(Instruction::LDC2_W(4).len(), 3);
    assert_eq!(Instruction::INVOKEINTERFACE(4, 1).len(), 4);
    assert_eq!(Instruction::MULTIANEWARRAY(4, 2).len(), 4);
    assert_eq!(Instruction::GOTO_W(70000).len(), 5);
    assert_eq!(Instruction::JSR_W(70000).len(), 5);
}

#[test]
fn lookupswitch_len_is_5_plus_4_for_each_pair() {
    assert_eq!(Instruction::LOOKUPSWITCH(0, vec![]).len(), 5);
    assert_eq!(Instruction::LOOKUPSWITCH(9, vec![(1, 2)]).len(), 9);
    assert_eq!(Instruction::LOOKUPSWITCH(-1, vec![(1, 2), (3, 4), (5, 6)]).len(), 17);
}
