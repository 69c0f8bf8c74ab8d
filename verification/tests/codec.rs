use jvmti::bytecode::classfile::AccessFlags;
use jvmti::bytecode::classfile::Attribute;
use jvmti::bytecode::classfile::BootstrapMethod;
use jvmti::bytecode::classfile::Classfile;
use jvmti::bytecode::classfile::ClassfileVersion;
use jvmti::bytecode::classfile::Constant;
use jvmti::bytecode::classfile::ConstantPool;
use jvmti::bytecode::classfile::ConstantPoolIndex;
use jvmti::bytecode::classfile::ExceptionHandler;
use jvmti::bytecode::classfile::Field;
use jvmti::bytecode::classfile::InnerClass;
use jvmti::bytecode::classfile::Instruction;
use jvmti::bytecode::classfile::LineNumberTable;
use jvmti::bytecode::classfile::LocalVariableTable;
use jvmti::bytecode::classfile::LocalVariableTableType;
use jvmti::bytecode::classfile::Method;
use jvmti::bytecode::classfile::MethodParameter;
use jvmti::bytecode::classfile::ReferenceKind;
use jvmti::bytecode::decode;
use jvmti::bytecode::encode;
use jvmti::bytecode::insn::opcode_len;
use jvmti::bytecode::reencode;

fn idx(i: usize) -> ConstantPoolIndex {
    ConstantPoolIndex::new(i)
}

fn utf8(s: &str) -> Constant {
    Constant::Utf8(s.as_bytes().to_vec())
}

fn utf8_bytes(s: &str) -> Vec<u8> {
    let mut v = vec![1, 0, s.len() as u8];
    v.extend_from_slice(s.as_bytes());
    v
}

/// A class file with the pool given (its count and its entries), nothing
/// else in it, and `tail` after the attributes of the class.
fn class_with_pool(count: u16, pool: &[u8], tail: &[u8]) -> Vec<u8> {
    let mut v = vec![0xCA, 0xFE, 0xBA, 0xBE, 0, 0, 0, 52];
    v.extend_from_slice(&count.to_be_bytes());
    v.extend_from_slice(pool);
    // flags, this, super, interfaces, fields, methods
    v.extend_from_slice(&[0, 0x21, 0, 0, 0, 0, 0, 0, 0, 0, 0, 0]);
    v.extend_from_slice(tail);
    v
}

/// A class file whose pool holds the one name `name`, with one attribute
/// of the class of that name and the payload given.
fn class_with_attribute(name: &str, payload: &[u8]) -> Vec<u8> {
    let mut tail = vec![0, 1, 0, 1];
    tail.extend_from_slice(&(payload.len() as u32).to_be_bytes());
    tail.extend_from_slice(payload);
    class_with_pool(2, &utf8_bytes(name), &tail)
}

/// A class file with one method, which has one `Code` attribute with the
/// code array given, no handlers and no attributes.
fn class_with_code(code: &[u8]) -> Vec<u8> {
    let mut v = vec![0xCA, 0xFE, 0xBA, 0xBE, 0, 0, 0, 52];
    v.extend_from_slice(&[0, 2]);
    v.extend_from_slice(&utf8_bytes("Code"));
    v.extend_from_slice(&[0, 0x21, 0, 0, 0, 0, 0, 0, 0, 0]);
    // one method: flags, name, descriptor, one attribute
    v.extend_from_slice(&[0, 1, 0, 9, 0, 0, 0, 0, 0, 1]);
    v.extend_from_slice(&[0, 1]);
    v.extend_from_slice(&((12 + code.len()) as u32).to_be_bytes());
    v.extend_from_slice(&[0, 2, 0, 1]);
    v.extend_from_slice(&(code.len() as u32).to_be_bytes());
    v.extend_from_slice(code);
    v.extend_from_slice(&[0, 0, 0, 0]);
    // attributes of the class
    v.extend_from_slice(&[0, 0]);
    v
}

fn code_of(cf: &Classfile) -> &Vec<Instruction> {
    match &cf.methods[0].attributes[0] {
        Attribute::Code { code, .. } => code,
        other => panic!("not a Code attribute: {:?}", other),
    }
}

fn encoded(cf: &Classfile) -> Vec<u8> {
    let mut out = Vec::new();
    assert_eq!(encode(cf, &mut out), Ok(()));
    out
}

fn rich_class() -> Classfile {
    let names = [
        "Code", "LineNumberTable", "SourceFile", "ConstantValue", "Exceptions", "InnerClasses",
        "EnclosingMethod", "Synthetic", "Signature", "SourceDebugExtension", "LocalVariableTable",
        "LocalVariableTypeTable", "Deprecated", "BootstrapMethods", "MethodParameters",
    ];
    let mut constants: Vec<Constant> = names.iter().map(|n| utf8(n)).collect();
    constants.push(Constant::Integer(0xDEADBEEF));
    constants.push(Constant::Float(0x3F800000));
    constants.push(Constant::Long(0x0102030405060708));
    constants.push(Constant::Placeholder);
    constants.push(Constant::Double(0x400921FB54442D18));
    constants.push(Constant::Placeholder);
    constants.push(Constant::Class(idx(1)));
    constants.push(Constant::String(idx(2)));
    constants.push(Constant::FieldRef { class_index: idx(3), name_and_type_index: idx(4) });
    constants.push(Constant::MethodRef { class_index: idx(5), name_and_type_index: idx(6) });
    constants.push(Constant::InterfaceMethodRef { class_index: idx(7), name_and_type_index: idx(8) });
    constants.push(Constant::NameAndType { name_index: idx(9), descriptor_index: idx(10) });
    constants.push(Constant::MethodHandle {
        reference_kind: ReferenceKind::InvokeStatic,
        reference_index: idx(11),
    });
    constants.push(Constant::MethodType(idx(12)));
    constants.push(Constant::InvokeDynamic {
        bootstrap_method_attr_index: idx(0),
        name_and_type_index: idx(13),
    });
    constants.push(Constant::Unknown(2));
    constants.push(utf8("Custom"));
    let custom_slot = constants.len();
    let code = Attribute::Code {
        max_stack: 3,
        max_locals: 4,
        code: vec![
            Instruction::ALOAD_0,
            Instruction::BIPUSH,
            Instruction::SIPUSH(0x1234),
            Instruction::IINC(2, -3),
            Instruction::LOOKUPSWITCH(-7, vec![(5, 100), (-3, 200), (4, -300)]),
            Instruction::INVOKEINTERFACE(9, 2),
            Instruction::GOTO_W(0x01020304),
            Instruction::MULTIANEWARRAY(7, 3),
            Instruction::LOOKUPSWITCH(1, vec![]),
            Instruction::RETURN,
        ],
        exception_table: vec![ExceptionHandler {
            start_pc: 0,
            end_pc: 4,
            handler_pc: 8,
            catch_type: idx(22),
        }],
        attributes: vec![
            Attribute::LineNumbeTable(vec![
                LineNumberTable { start_pc: 0, line_number: 10 },
                LineNumberTable { start_pc: 3, line_number: 11 },
            ]),
            Attribute::LocalVariableTable(vec![LocalVariableTable {
                start_pc: 0,
                length: 9,
                name_index: idx(1),
                descriptor_index: idx(2),
                index: 0,
            }]),
            Attribute::LocalVariableTableType(vec![LocalVariableTableType {
                start_pc: 1,
                length: 8,
                name_index: idx(3),
                signature_index: idx(4),
                index: 1,
            }]),
            Attribute::RawAttribute { name_index: idx(custom_slot), info: vec![9, 8, 7] },
        ],
    };
    Classfile {
        version: ClassfileVersion::new(52, 3),
        constant_pool: ConstantPool::new(constants),
        access_flags: AccessFlags::of(0x0421),
        this_class: idx(22),
        super_class: idx(0),
        interfaces: vec![idx(22), idx(5), idx(22)],
        fields: vec![
            Field {
                access_flags: AccessFlags::of(0x0019),
                name_index: idx(1),
                descriptor_index: idx(2),
                attributes: vec![
                    Attribute::ConstantValue(idx(16)),
                    Attribute::Synthetic,
                    Attribute::Deprecated,
                    Attribute::Signature(idx(3)),
                ],
            },
            Field {
                access_flags: AccessFlags::of(0x0002),
                name_index: idx(3),
                descriptor_index: idx(4),
                attributes: vec![],
            },
        ],
        methods: vec![
            Method {
                access_flags: AccessFlags::of(0x0001),
                name_index: idx(5),
                descriptor_index: idx(6),
                attributes: vec![
                    code,
                    Attribute::Exceptions(vec![idx(22), idx(23)]),
                    Attribute::MethodParameters(vec![
                        MethodParameter { name_index: idx(1), access_flags: AccessFlags::of(0x0010) },
                        MethodParameter { name_index: idx(0), access_flags: AccessFlags::of(0x8000) },
                    ]),
                ],
            },
            Method {
                access_flags: AccessFlags::of(0x0401),
                name_index: idx(7),
                descriptor_index: idx(8),
                attributes: vec![],
            },
        ],
        attributes: vec![
            Attribute::SourceFile(idx(3)),
            Attribute::InnerClass(vec![InnerClass {
                inner_class_info_index: idx(22),
                outer_class_info_index: idx(0),
                inner_name_index: idx(0),
                access_flags: AccessFlags::of(0x0008),
            }]),
            Attribute::EnclosingMethod { class_index: idx(22), method_index: idx(27) },
            Attribute::SourceDebugExtension(vec![0xC0, 0x80, b's', b'm', b'a', b'p']),
            Attribute::BootstrapMethods(vec![
                BootstrapMethod { bootstrap_method_ref: idx(28), bootstrap_arguments: vec![idx(16), idx(23)] },
                BootstrapMethod { bootstrap_method_ref: idx(28), bootstrap_arguments: vec![] },
            ]),
            Attribute::RawAttribute { name_index: idx(0), info: vec![] },
        ],
    }
}

#[test]
fn minimal_class_decodes_and_encodes_back() {
    let bytes = class_with_pool(1, &[], &[0, 0]);
    let cf = decode(&bytes).unwrap();
    assert_eq!(cf.version, ClassfileVersion::new(52, 0));
    assert_eq!(cf.constant_pool.cp_len(), 0);
    assert_eq!(cf.access_flags, AccessFlags::of(0x0021));
    assert_eq!(cf.this_class, idx(0));
    assert_eq!(cf.super_class, idx(0));
    assert!(cf.interfaces.is_empty());
    assert!(cf.fields.is_empty());
    assert!(cf.methods.is_empty());
    assert!(cf.attributes.is_empty());
    assert_eq!(encoded(&cf), bytes);
}

#[test]
fn header_holds_the_minor_version_before_the_major() {
    let mut cf = Classfile::new();
    cf.version = ClassfileVersion::new(0x0034, 0x0102);
    let bytes = encoded(&cf);
    assert_eq!(&bytes[..10], &[0xCA, 0xFE, 0xBA, 0xBE, 0x01, 0x02, 0x00, 0x34, 0x00, 0x01]);
    assert_eq!(bytes.len(), 24);
    assert_eq!(decode(&bytes).unwrap().version, ClassfileVersion::new(0x34, 0x0102));
}

#[test]
fn encode_appends_to_what_the_output_holds() {
    let cf = Classfile::new();
    let mut out = vec![1, 2, 3];
    assert_eq!(encode(&cf, &mut out), Ok(()));
    assert_eq!(&out[..3], &[1, 2, 3]);
    assert_eq!(&out[3..], &encoded(&cf)[..]);
}

#[test]
fn boundary_pool_count_is_written_as_4() {
    let mut cf = Classfile::new();
    cf.constant_pool = ConstantPool::new(vec![
        Constant::Long(42),
        Constant::Placeholder,
        Constant::Utf8(vec![b'x']),
    ]);
    let bytes = encoded(&cf);
    assert_eq!(&bytes[8..10], &[0, 4]);
    assert_eq!(&bytes[10..19], &[5, 0, 0, 0, 0, 0, 0, 0, 42]);
    assert_eq!(&bytes[19..23], &[1, 0, 1, b'x']);
    let back = decode(&bytes).unwrap();
    assert_eq!(back.constant_pool.cp_len(), 3);
    assert_eq!(back.constant_pool.resolve_index(&idx(2)), Some(&Constant::Utf8(vec![b'x'])));
    assert_eq!(back.constant_pool.resolve_index(&idx(1)), None);
    assert_eq!(back, cf);
}

#[test]
fn pool_count_is_entries_plus_eight_byte_entries_plus_one() {
    // n = 4 constants, k = 2 of them eight bytes long: 4 + 2 + 1 = 7.
    let mut cf = Classfile::new();
    cf.constant_pool = ConstantPool::new(vec![
        Constant::Integer(1),
        Constant::Long(2),
        Constant::Placeholder,
        Constant::Double(3),
        Constant::Placeholder,
        Constant::Float(4),
    ]);
    assert_eq!(cf.constant_pool.cp_len() + 1, 7);
    let bytes = encoded(&cf);
    assert_eq!(&bytes[8..10], &[0, 7]);
    assert_eq!(decode(&bytes).unwrap(), cf);
}

#[test]
fn code_attribute_scenario() {
    let bytes = class_with_code(&[0x04, 0xAC]);
    let cf = decode(&bytes).unwrap();
    assert_eq!(cf.methods.len(), 1);
    assert_eq!(cf.methods[0].attributes.len(), 1);
    match &cf.methods[0].attributes[0] {
        Attribute::Code { max_stack, max_locals, code, exception_table, attributes } => {
            assert_eq!(*max_stack, 2);
            assert_eq!(*max_locals, 1);
            assert_eq!(code, &vec![Instruction::ICONST_1, Instruction::IRETURN]);
            assert_eq!(code.iter().map(|i| i.len()).sum::<usize>(), 2);
            assert!(exception_table.is_empty());
            assert!(attributes.is_empty());
        },
        other => panic!("not a Code attribute: {:?}", other),
    }
    assert_eq!(encoded(&cf), bytes);
}

#[test]
fn unknown_attribute_and_unknown_tag_survive() {
    // Tag 2 is not defined; "Foo" names no attribute of the table.
    let mut pool = vec![2u8];
    pool.extend_from_slice(&utf8_bytes("Foo"));
    let bytes = class_with_pool(3, &pool, &[0, 1, 0, 2, 0, 0, 0, 3, 0xAA, 0xBB, 0xCC]);
    let cf = decode(&bytes).unwrap();
    assert_eq!(cf.constant_pool.constants, vec![Constant::Unknown(2), utf8("Foo")]);
    assert_eq!(
        cf.attributes,
        vec![Attribute::RawAttribute { name_index: idx(2), info: vec![0xAA, 0xBB, 0xCC] }]
    );
    assert_eq!(encoded(&cf), bytes);
}

#[test]
fn attribute_with_a_name_that_is_no_utf8_constant_stays_raw() {
    for name in [0u8, 1, 2, 9] {
        let pool = [3u8, 0, 0, 0, 7];
        let bytes = class_with_pool(2, &pool, &[0, 1, 0, name, 0, 0, 0, 2, 5, 6]);
        let cf = decode(&bytes).unwrap();
        assert_eq!(
            cf.attributes,
            vec![Attribute::RawAttribute { name_index: idx(name as usize), info: vec![5, 6] }]
        );
        assert_eq!(encoded(&cf), bytes);
    }
}

#[test]
fn attribute_names_are_taken_from_the_slot_before_which_one_entry_less_stands() {
    // Slot 1 holds an integer, slot 2 the name.
    let mut pool = vec![3u8, 0, 0, 0, 7];
    pool.extend_from_slice(&utf8_bytes("Deprecated"));
    let bytes = class_with_pool(3, &pool, &[0, 1, 0, 2, 0, 0, 0, 0]);
    let cf = decode(&bytes).unwrap();
    assert_eq!(cf.attributes, vec![Attribute::Deprecated]);
    assert_eq!(encoded(&cf), bytes);
}

#[test]
fn every_structured_attribute_round_trips() {
    let cf = rich_class();
    let bytes = encoded(&cf);
    let back = decode(&bytes).unwrap();
    assert_eq!(back, cf);
    assert_eq!(encoded(&back), bytes);
}

#[test]
fn order_of_members_and_attributes_is_kept() {
    let cf = rich_class();
    let back = decode(&encoded(&cf)).unwrap();
    assert_eq!(back.interfaces, vec![idx(22), idx(5), idx(22)]);
    assert_eq!(back.fields[0].name_index, idx(1));
    assert_eq!(back.fields[1].name_index, idx(3));
    assert_eq!(back.methods[0].name_index, idx(5));
    assert_eq!(back.methods[1].name_index, idx(7));
    assert_eq!(back.attributes[0], Attribute::SourceFile(idx(3)));
    assert_eq!(back.attributes[5], Attribute::RawAttribute { name_index: idx(0), info: vec![] });
}

#[test]
fn simple_attribute_payloads_have_the_layout_of_the_format() {
    let cf = decode(&class_with_attribute("SourceFile", &[0x12, 0x34])).unwrap();
    assert_eq!(cf.attributes, vec![Attribute::SourceFile(idx(0x1234))]);
    let cf = decode(&class_with_attribute("Signature", &[0, 9])).unwrap();
    assert_eq!(cf.attributes, vec![Attribute::Signature(idx(9))]);
    let cf = decode(&class_with_attribute("ConstantValue", &[0, 1])).unwrap();
    assert_eq!(cf.attributes, vec![Attribute::ConstantValue(idx(1))]);
    let cf = decode(&class_with_attribute("Exceptions", &[0, 2, 0, 5, 0, 6])).unwrap();
    assert_eq!(cf.attributes, vec![Attribute::Exceptions(vec![idx(5), idx(6)])]);
    let cf = decode(&class_with_attribute("EnclosingMethod", &[0, 3, 0, 4])).unwrap();
    assert_eq!(
        cf.attributes,
        vec![Attribute::EnclosingMethod { class_index: idx(3), method_index: idx(4) }]
    );
    let cf = decode(&class_with_attribute("InnerClasses", &[0, 1, 0, 1, 0, 2, 0, 3, 0, 8])).unwrap();
    assert_eq!(
        cf.attributes,
        vec![Attribute::InnerClass(vec![InnerClass {
            inner_class_info_index: idx(1),
            outer_class_info_index: idx(2),
            inner_name_index: idx(3),
            access_flags: AccessFlags::of(8),
        }])]
    );
    let cf = decode(&class_with_attribute("LineNumberTable", &[0, 1, 0, 7, 1, 0])).unwrap();
    assert_eq!(
        cf.attributes,
        vec![Attribute::LineNumbeTable(vec![LineNumberTable { start_pc: 7, line_number: 256 }])]
    );
    let cf = decode(&class_with_attribute("MethodParameters", &[1, 0, 4, 0x80, 0])).unwrap();
    assert_eq!(
        cf.attributes,
        vec![Attribute::MethodParameters(vec![MethodParameter {
            name_index: idx(4),
            access_flags: AccessFlags::of(0x8000),
        }])]
    );
    let cf = decode(&class_with_attribute("BootstrapMethods", &[0, 1, 0, 9, 0, 2, 0, 3, 0, 4])).unwrap();
    assert_eq!(
        cf.attributes,
        vec![Attribute::BootstrapMethods(vec![BootstrapMethod {
            bootstrap_method_ref: idx(9),
            bootstrap_arguments: vec![idx(3), idx(4)],
        }])]
    );
    let cf = decode(&class_with_attribute("SourceDebugExtension", &[1, 2, 3])).unwrap();
    assert_eq!(cf.attributes, vec![Attribute::SourceDebugExtension(vec![1, 2, 3])]);
    let cf = decode(&class_with_attribute("Synthetic", &[])).unwrap();
    assert_eq!(cf.attributes, vec![Attribute::Synthetic]);
}

#[test]
fn attributes_that_the_model_holds_in_part_stay_raw() {
    for name in [
        "StackMapTable", "RuntimeVisibleAnnotations", "RuntimeInvisibleAnnotations",
        "RuntimeVisibleParameterAnnotations", "RuntimeInvisibleParameterAnnotations",
        "RuntimeVisibleTypeAnnotations", "RuntimeInvisibleTypeAnnotations", "AnnotationDefault",
    ] {
        let bytes = class_with_attribute(name, &[0, 1, 17]);
        let cf = decode(&bytes).unwrap();
        assert_eq!(
            cf.attributes,
            vec![Attribute::RawAttribute { name_index: idx(1), info: vec![0, 1, 17] }]
        );
        assert_eq!(encoded(&cf), bytes);
    }
}

#[test]
fn a_name_that_stands_twice_is_written_as_its_first_slot() {
    // The attribute names slot 2; the encoder writes slot 1, which holds
    // the same name, and the class file decodes to the same structure.
    let mut pool = utf8_bytes("Deprecated");
    pool.extend_from_slice(&utf8_bytes("Deprecated"));
    let bytes = class_with_pool(3, &pool, &[0, 1, 0, 2, 0, 0, 0, 0]);
    let first = decode(&bytes).unwrap();
    assert_eq!(first.attributes, vec![Attribute::Deprecated]);
    let again = encoded(&first);
    assert_ne!(again, bytes);
    assert_eq!(again.len(), bytes.len());
    assert_eq!(&again[again.len() - 6..], &[0, 1, 0, 0, 0, 0]);
    assert_eq!(decode(&again).unwrap(), first);
    assert_eq!(encoded(&decode(&again).unwrap()), again);
}

#[test]
fn decode_encode_decode_is_decode() {
    // Padding that is not zero is read, and written as zero.
    let code = [0x00, 0xAB, 0x55, 0x66, 0, 0, 0, 9, 0, 0, 0, 1, 0, 0, 0, 4, 0, 0, 0, 8];
    let bytes = class_with_code(&code);
    let first = decode(&bytes).unwrap();
    assert_eq!(
        code_of(&first),
        &vec![Instruction::NOP, Instruction::LOOKUPSWITCH(9, vec![(4, 8)])]
    );
    let again = encoded(&first);
    assert_ne!(again, bytes);
    assert_eq!(decode(&again).unwrap(), first);
    let rich = encoded(&rich_class());
    assert_eq!(decode(&encoded(&decode(&rich).unwrap())).unwrap(), decode(&rich).unwrap());
}

#[test]
fn lookupswitch_is_padded_to_a_multiple_of_four() {
    for lead in 0..8usize {
        let mut code = vec![Instruction::NOP; lead];
        code.push(Instruction::LOOKUPSWITCH(-2, vec![(7, 1), (-1, 2)]));
        code.push(Instruction::RETURN);
        let mut cf = decode(&class_with_code(&[])).unwrap();
        cf.methods[0].attributes = vec![Attribute::Code {
            max_stack: 0,
            max_locals: 0,
            code: code.clone(),
            exception_table: vec![],
            attributes: vec![],
        }];
        let bytes = encoded(&cf);
        let back = decode(&bytes).unwrap();
        assert_eq!(code_of(&back), &code);
        let padding = 3 - lead % 4;
        // opcode, padding, default and count, two pairs, and the return
        let code_length = lead + 1 + padding + 8 + 16 + 1;
        let at = bytes.len() - 2 - 4 - code_length - 4;
        assert_eq!(&bytes[at..at + 4], &(code_length as u32).to_be_bytes());
        let switch = at + 4 + lead;
        assert_eq!(bytes[switch], 0xAB);
        assert!(bytes[switch + 1..switch + 1 + padding].iter().all(|b| *b == 0));
        assert_eq!((lead + 1 + padding) % 4, 0);
        let operands = switch + 1 + padding;
        assert_eq!(
            &bytes[operands..operands + 24],
            &[
                0xFF, 0xFF, 0xFF, 0xFE, 0, 0, 0, 2, 0, 0, 0, 7, 0, 0, 0, 1, 0xFF, 0xFF, 0xFF, 0xFF, 0,
                0, 0, 2
            ]
        );
    }
}

#[test]
fn lookupswitch_pairs_keep_their_order() {
    let code = [0xAB, 0, 0, 0, 0, 0, 0, 5, 0, 0, 0, 2, 0, 0, 0, 9, 0, 0, 0, 1, 0, 0, 0, 3, 0, 0, 0, 2];
    let cf = decode(&class_with_code(&code)).unwrap();
    assert_eq!(code_of(&cf), &vec![Instruction::LOOKUPSWITCH(5, vec![(9, 1), (3, 2)])]);
    assert_eq!(encoded(&cf), class_with_code(&code));
}

#[test]
fn operands_are_read_most_significant_byte_first() {
    let code = [
        0x11, 0x12, 0x34, // sipush
        0x84, 0x05, 0xFF, // iinc 5, -1
        0xC8, 0x01, 0x02, 0x03, 0x04, // goto_w
        0xB9, 0x00, 0x07, 0x02, // invokeinterface, as the model holds it
        0x19, 0xFE, // aload
        0xC5, 0xAB, 0xCD, 0x03, // multianewarray
    ];
    let cf = decode(&class_with_code(&code)).unwrap();
    assert_eq!(
        code_of(&cf),
        &vec![
            Instruction::SIPUSH(0x1234),
            Instruction::IINC(5, -1),
            Instruction::GOTO_W(0x01020304),
            Instruction::INVOKEINTERFACE(7, 2),
            Instruction::ALOAD(0xFE),
            Instruction::MULTIANEWARRAY(0xABCD, 3),
        ]
    );
    assert_eq!(encoded(&cf), class_with_code(&code));
}

#[test]
fn declared_length_is_what_the_decoder_takes_for_every_opcode() {
    for op in 0..=0xC9u8 {
        if op == 0xAA || op == 0xAB || op == 0xC4 {
            continue;
        }
        // The opcode and four zero bytes: what the instruction does not
        // take is read as `NOP`.
        let code = [op, 0, 0, 0, 0];
        let bytes = class_with_code(&code);
        let cf = decode(&bytes).unwrap();
        let instructions = code_of(&cf);
        let first = instructions[0].len();
        assert!(1 <= first && first <= 5);
        assert_eq!(opcode_len(op), Some(first));
        if op != 0 {
            assert_ne!(instructions[0], Instruction::NOP);
        }
        assert_eq!(instructions.len(), 1 + (5 - first));
        assert!(instructions[1..].iter().all(|i| *i == Instruction::NOP));
        assert_eq!(encoded(&cf), bytes);
    }
}

#[test]
fn declared_length_of_a_lookupswitch_is_not_what_the_decoder_takes() {
    let code = [0xAB, 0, 0, 0, 0, 0, 0, 0, 0, 0, 0, 0];
    let cf = decode(&class_with_code(&code)).unwrap();
    assert_eq!(code_of(&cf), &vec![Instruction::LOOKUPSWITCH(0, vec![])]);
    assert_eq!(code_of(&cf)[0].len(), 5);
    assert_eq!(code.len(), 12);
}

#[test]
fn all_kinds_of_constants_are_read() {
    let mut pool = vec![];
    pool.extend_from_slice(&[1, 0, 2, 0xC0, 0x80]);
    pool.extend_from_slice(&[3, 0xDE, 0xAD, 0xBE, 0xEF]);
    pool.extend_from_slice(&[4, 0x3F, 0x80, 0, 0]);
    pool.extend_from_slice(&[5, 1, 2, 3, 4, 5, 6, 7, 8]);
    pool.extend_from_slice(&[6, 0xFF, 0xFF, 0xFF, 0xFF, 0xFF, 0xFF, 0xFF, 0xFF]);
    pool.extend_from_slice(&[7, 0, 1]);
    pool.extend_from_slice(&[8, 0, 2]);
    pool.extend_from_slice(&[9, 0, 3, 0, 4]);
    pool.extend_from_slice(&[10, 0, 5, 0, 6]);
    pool.extend_from_slice(&[11, 0, 7, 0, 8]);
    pool.extend_from_slice(&[12, 0, 9, 0, 10]);
    pool.extend_from_slice(&[15, 9, 0, 11]);
    pool.extend_from_slice(&[15, 77, 0, 11]);
    pool.extend_from_slice(&[16, 0xAB, 0xCD]);
    pool.extend_from_slice(&[18, 0, 0, 0xFF, 0xFF]);
    pool.extend_from_slice(&[0]);
    pool.extend_from_slice(&[19]);
    let bytes = class_with_pool(20, &pool, &[0, 0]);
    let cf = decode(&bytes).unwrap();
    assert_eq!(
        cf.constant_pool.constants,
        vec![
            Constant::Utf8(vec![0xC0, 0x80]),
            Constant::Integer(0xDEADBEEF),
            Constant::Float(0x3F800000),
            Constant::Long(0x0102030405060708),
            Constant::Placeholder,
            Constant::Double(u64::MAX),
            Constant::Placeholder,
            Constant::Class(idx(1)),
            Constant::String(idx(2)),
            Constant::FieldRef { class_index: idx(3), name_and_type_index: idx(4) },
            Constant::MethodRef { class_index: idx(5), name_and_type_index: idx(6) },
            Constant::InterfaceMethodRef { class_index: idx(7), name_and_type_index: idx(8) },
            Constant::NameAndType { name_index: idx(9), descriptor_index: idx(10) },
            Constant::MethodHandle { reference_kind: ReferenceKind::InvokeInterface, reference_index: idx(11) },
            Constant::MethodHandle { reference_kind: ReferenceKind::Unknown, reference_index: idx(11) },
            Constant::MethodType(idx(0xABCD)),
            Constant::InvokeDynamic { bootstrap_method_attr_index: idx(0), name_and_type_index: idx(0xFFFF) },
            Constant::Unknown(0),
            Constant::Unknown(19),
        ]
    );
    assert_eq!(cf.constant_pool.cp_len() + 1, 20);
    // The kind 77 of a method handle is read as unknown and written as 255.
    let again = encoded(&cf);
    assert_eq!(again.len(), bytes.len());
    assert_ne!(again, bytes);
    assert_eq!(decode(&again).unwrap(), cf);
    assert_eq!(encoded(&decode(&again).unwrap()), again);
}

#[test]
fn bytes_that_use_no_freedom_of_the_decoder_are_kept() {
    // Method handles of defined kinds, one slot for each name, and zero
    // padding: what javac writes.
    let mut pool = utf8_bytes("Code");
    pool.extend_from_slice(&[15, 6, 0, 1]);
    pool.extend_from_slice(&utf8_bytes("Deprecated"));
    let mut bytes = vec![0xCA, 0xFE, 0xBA, 0xBE, 0, 0, 0, 52, 0, 4];
    bytes.extend_from_slice(&pool);
    bytes.extend_from_slice(&[0, 0x21, 0, 0, 0, 0, 0, 0, 0, 0]);
    bytes.extend_from_slice(&[0, 1, 0, 9, 0, 0, 0, 0, 0, 2]);
    let code = [0x00, 0xAB, 0, 0, 0, 0, 0, 9, 0, 0, 0, 1, 0, 0, 0, 4, 0, 0, 0, 8];
    bytes.extend_from_slice(&[0, 1, 0, 0, 0, 32, 0, 2, 0, 1, 0, 0, 0, 20]);
    bytes.extend_from_slice(&code);
    bytes.extend_from_slice(&[0, 0, 0, 0]);
    bytes.extend_from_slice(&[0, 3, 0, 0, 0, 0]);
    bytes.extend_from_slice(&[0, 1, 0, 3, 0, 0, 0, 0]);
    assert_eq!(reencode(&bytes), Ok(bytes.clone()));
}

#[test]
fn reencode_gives_bytes_that_decode_to_the_same_class() {
    let rich = encoded(&rich_class());
    assert_eq!(reencode(&rich), Ok(rich.clone()));
    let padded = class_with_code(&[0x00, 0xAB, 0x55, 0x66, 0, 0, 0, 9, 0, 0, 0, 0]);
    let again = reencode(&padded).unwrap();
    assert_eq!(again.len(), padded.len());
    assert_ne!(again, padded);
    assert_eq!(decode(&again), decode(&padded));
    assert_eq!(reencode(&again), Ok(again.clone()));
    assert_eq!(reencode(&[1, 2, 3]).unwrap_err(), decode(&[1, 2, 3]).unwrap_err());
}

#[test]
fn opcode_table_has_no_length_for_switches_and_opcodes_without_a_layout() {
    for op in [0xAAu8, 0xAB, 0xC4, 0xCA, 0xCB, 0xFE, 0xFF] {
        assert_eq!(opcode_len(op), None);
    }
    assert_eq!(opcode_len(0x00), Some(1));
    assert_eq!(opcode_len(0x10), Some(1));
    assert_eq!(opcode_len(0x11), Some(3));
    assert_eq!(opcode_len(0x12), Some(2));
    assert_eq!(opcode_len(0x84), Some(3));
    assert_eq!(opcode_len(0xB9), Some(4));
    assert_eq!(opcode_len(0xC5), Some(4));
    assert_eq!(opcode_len(0xC8), Some(5));
    assert_eq!(opcode_len(0xC9), Some(5));
}
