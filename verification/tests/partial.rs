use jvmti::bytecode::annotation::read_annotations_payload;
use jvmti::bytecode::annotation::read_default_payload;
use jvmti::bytecode::annotation::read_parameters_payload;
use jvmti::bytecode::annotation::read_type_annotations_payload;
use jvmti::bytecode::classfile::Annotation;
use jvmti::bytecode::classfile::Attribute;
use jvmti::bytecode::classfile::Constant;
use jvmti::bytecode::classfile::ConstantPool;
use jvmti::bytecode::classfile::ConstantPoolIndex;
use jvmti::bytecode::classfile::ElementValue;
use jvmti::bytecode::classfile::ElementValuePair;
use jvmti::bytecode::classfile::StackMapFrame;
use jvmti::bytecode::classfile::TargetInfo;
use jvmti::bytecode::classfile::TypeAnnotation;
use jvmti::bytecode::classfile::TypePath;
use jvmti::bytecode::classfile::TypePathKind;
use jvmti::bytecode::classfile::VerificationType;
use jvmti::bytecode::decode;
use jvmti::bytecode::encode;
use jvmti::bytecode::frames::read_stack_map_table;
use jvmti::bytecode::partial::project;
use jvmti::bytecode::wire::Fault;
use jvmti::bytecode::FaultKind;

fn idx(i: usize) -> ConstantPoolIndex {
    ConstantPoolIndex::new(i)
}

fn fault(kind: FaultKind, offset: usize) -> Fault {
    Fault { kind, offset }
}

fn frames_payload() -> Vec<u8> {
    vec![
        0, 8, // eight frames
        5, // same frame
        67, 1, // one stack item, delta 3
        200, // reserved
        247, 1, 2, 7, 0, 9, // one stack item, delta 0x0102
        249, 0, 3, // chop
        251, 0, 4, // same frame, extended
        253, 0, 5, 0, 8, 0, 7, // append two locals
        255, 0, 6, 0, 1, 4, 0, 2, 5, 6, // full frame
    ]
}

#[test]
fn stack_map_frames_are_read_by_their_frame_type() {
    assert_eq!(
        read_stack_map_table(&frames_payload()),
        Ok(vec![
            StackMapFrame::SameFrame,
            StackMapFrame::SameLocals1StackItemFrame { offset_delta: 3, stack: VerificationType::Integer },
            StackMapFrame::FutureUse,
            StackMapFrame::SameLocals1StackItemFrameExtended {
                offset_delta: 0x0102,
                stack: VerificationType::Object { cpool_index: idx(9) },
            },
            StackMapFrame::ChopFrame { offset_delta: 3 },
            StackMapFrame::SameFrameExtended { offset_delta: 4 },
            StackMapFrame::AppendFrame {
                offset_delta: 5,
                locals: vec![VerificationType::Top, VerificationType::Uninitialized { offset: 7 }],
            },
            StackMapFrame::FullFrame {
                offset_delta: 6,
                locals: vec![VerificationType::Long],
                stack: vec![VerificationType::Null, VerificationType::Uninitializedthis],
            },
        ])
    );
    assert_eq!(read_stack_map_table(&[0, 0]), Ok(vec![]));
    assert_eq!(
        read_stack_map_table(&[0, 4, 0, 63, 64, 2, 127, 3]),
        Ok(vec![
            StackMapFrame::SameFrame,
            StackMapFrame::SameFrame,
            StackMapFrame::SameLocals1StackItemFrame { offset_delta: 0, stack: VerificationType::Float },
            StackMapFrame::SameLocals1StackItemFrame { offset_delta: 63, stack: VerificationType::Double },
        ])
    );
}

#[test]
fn every_frame_but_same_frame_and_future_use_holds_an_offset_delta() {
    let frames = read_stack_map_table(&frames_payload()).unwrap();
    let deltas: Vec<Option<u16>> = frames.iter().map(|f| f.offset_delta()).collect();
    assert_eq!(
        deltas,
        vec![None, Some(3), None, Some(0x0102), Some(3), Some(4), Some(5), Some(6)]
    );
}

#[test]
fn stack_map_table_faults() {
    assert_eq!(read_stack_map_table(&[]), Err(fault(FaultKind::Truncated, 0)));
    assert_eq!(read_stack_map_table(&[0]), Err(fault(FaultKind::Truncated, 0)));
    assert_eq!(read_stack_map_table(&[0, 1]), Err(fault(FaultKind::Truncated, 2)));
    assert_eq!(read_stack_map_table(&[0, 1, 64, 9]), Err(fault(FaultKind::UnknownTag, 3)));
    assert_eq!(read_stack_map_table(&[0, 1, 64, 7, 0]), Err(fault(FaultKind::Truncated, 4)));
    assert_eq!(read_stack_map_table(&[0, 1, 251, 0]), Err(fault(FaultKind::Truncated, 3)));
    assert_eq!(read_stack_map_table(&[0, 1, 252, 0, 1]), Err(fault(FaultKind::Truncated, 5)));
    assert_eq!(read_stack_map_table(&[0, 1, 255, 0, 1, 0, 1, 1, 0]), Err(fault(FaultKind::Truncated, 8)));
    assert_eq!(read_stack_map_table(&[0, 1, 0, 0]), Err(fault(FaultKind::LengthMismatch, 3)));
    assert_eq!(read_stack_map_table(&[0, 0, 0]), Err(fault(FaultKind::LengthMismatch, 2)));
}

fn annotations_payload() -> Vec<u8> {
    vec![
        0, 2, // two annotations
        0, 3, 0, 3, // type 3, three pairs
        0, 4, b'I', 0, 5, // a constant
        0, 6, b'[', 0, 3, b's', 0, 7, b'@', 0, 8, 0, 0, b'[', 0, 0, // an array
        0, 9, b'e', 0, 10, 0, 11, // an enum constant
        0, 12, 0, 1, // type 12, one pair
        0, 13, b'c', 0, 14, // a class
    ]
}

fn annotations() -> Vec<Annotation> {
    vec![
        Annotation {
            type_index: idx(3),
            element_value_pairs: vec![
                ElementValuePair { element_name_index: idx(4), value: ElementValue::ConstantValue(idx(5)) },
                ElementValuePair {
                    element_name_index: idx(6),
                    value: ElementValue::Array(vec![
                        ElementValue::ConstantValue(idx(7)),
                        ElementValue::Annotation(Annotation { type_index: idx(8), element_value_pairs: vec![] }),
                        ElementValue::Array(vec![]),
                    ]),
                },
                ElementValuePair {
                    element_name_index: idx(9),
                    value: ElementValue::Enum { type_name_index: idx(10), const_name_index: idx(11) },
                },
            ],
        },
        Annotation {
            type_index: idx(12),
            element_value_pairs: vec![ElementValuePair {
                element_name_index: idx(13),
                value: ElementValue::ClassInfo(idx(14)),
            }],
        },
    ]
}

#[test]
fn annotations_are_read_with_their_nested_values() {
    assert_eq!(read_annotations_payload(&annotations_payload()), Ok(annotations()));
    assert_eq!(read_annotations_payload(&[0, 0]), Ok(vec![]));
}

#[test]
fn every_constant_tag_gives_a_constant_value() {
    for tag in [b'B', b'C', b'D', b'F', b'I', b'J', b'S', b'Z', b's'] {
        assert_eq!(read_default_payload(&[tag, 1, 2]), Ok(ElementValue::ConstantValue(idx(0x0102))));
    }
    assert_eq!(
        read_default_payload(&[b'e', 0, 1, 0, 2]),
        Ok(ElementValue::Enum { type_name_index: idx(1), const_name_index: idx(2) })
    );
    assert_eq!(read_default_payload(&[b'c', 0, 1]), Ok(ElementValue::ClassInfo(idx(1))));
}

#[test]
fn annotation_faults() {
    assert_eq!(read_default_payload(&[]), Err(fault(FaultKind::Truncated, 0)));
    assert_eq!(read_default_payload(&[b'x', 0, 1]), Err(fault(FaultKind::UnknownTag, 0)));
    assert_eq!(read_default_payload(&[b'I', 0]), Err(fault(FaultKind::Truncated, 1)));
    assert_eq!(read_default_payload(&[b'I', 0, 1, 0]), Err(fault(FaultKind::LengthMismatch, 3)));
    assert_eq!(read_default_payload(&[b'[', 0]), Err(fault(FaultKind::Truncated, 1)));
    assert_eq!(read_default_payload(&[b'[', 0, 2, b'I', 0, 1]), Err(fault(FaultKind::Truncated, 6)));
    assert_eq!(read_default_payload(&[b'[', 0, 1, b'?']), Err(fault(FaultKind::UnknownTag, 3)));
    assert_eq!(read_default_payload(&[b'@', 0, 1, 0]), Err(fault(FaultKind::Truncated, 1)));
    assert_eq!(read_annotations_payload(&[0]), Err(fault(FaultKind::Truncated, 0)));
    assert_eq!(read_annotations_payload(&[0, 1, 0, 1, 0, 1, 0]), Err(fault(FaultKind::Truncated, 6)));
    assert_eq!(read_annotations_payload(&[0, 1, 0, 1, 0, 0, 9]), Err(fault(FaultKind::LengthMismatch, 6)));
}

#[test]
fn parameter_annotations_are_a_list_for_each_parameter() {
    assert_eq!(
        read_parameters_payload(&[2, 0, 0, 0, 1, 0, 7, 0, 0]),
        Ok(vec![vec![], vec![Annotation { type_index: idx(7), element_value_pairs: vec![] }]])
    );
    assert_eq!(read_parameters_payload(&[0]), Ok(vec![]));
    assert_eq!(read_parameters_payload(&[]), Err(fault(FaultKind::Truncated, 0)));
    assert_eq!(read_parameters_payload(&[1, 0]), Err(fault(FaultKind::Truncated, 1)));
    assert_eq!(read_parameters_payload(&[1, 0, 0, 0]), Err(fault(FaultKind::LengthMismatch, 3)));
}

#[test]
fn type_annotations_hold_the_kind_of_their_target() {
    let payload = [
        0, 3, // three type annotations
        0x40, 0, 1, 0, 1, 0, 2, 0, 3, // a local variable, with a table of one entry
        2, 0, 0, 3, 1, // a path of two steps
        0, 5, 0, 0, // type 5, no pairs
        0x13, 0, 0, 6, 0, 1, 0, 7, b'Z', 0, 8, // a field
        0x4A, 1, 2, 3, 1, 2, 9, 0, 9, 0, 0, // a type argument
    ];
    assert_eq!(
        read_type_annotations_payload(&payload),
        Ok(vec![
            TypeAnnotation {
                target_info: TargetInfo::LocalVar,
                target_path: TypePath { path: vec![(TypePathKind::Array, 0), (TypePathKind::TypeArgument, 1)] },
                type_index: idx(5),
                element_value_pairs: vec![],
            },
            TypeAnnotation {
                target_info: TargetInfo::Empty,
                target_path: TypePath { path: vec![] },
                type_index: idx(6),
                element_value_pairs: vec![ElementValuePair {
                    element_name_index: idx(7),
                    value: ElementValue::ConstantValue(idx(8)),
                }],
            },
            TypeAnnotation {
                target_info: TargetInfo::TypeArgument,
                target_path: TypePath { path: vec![(TypePathKind::Wildcard, 9)] },
                type_index: idx(9),
                element_value_pairs: vec![],
            },
        ])
    );
}

#[test]
fn every_target_type_has_its_kind_and_its_width() {
    let kinds = [
        (0x00u8, TargetInfo::TypeParameter, 1usize),
        (0x01, TargetInfo::TypeParameter, 1),
        (0x10, TargetInfo::SuperType, 2),
        (0x11, TargetInfo::TypeParameterBound, 2),
        (0x12, TargetInfo::TypeParameterBound, 2),
        (0x13, TargetInfo::Empty, 0),
        (0x14, TargetInfo::Empty, 0),
        (0x15, TargetInfo::Empty, 0),
        (0x16, TargetInfo::MethodFormalParameter, 1),
        (0x17, TargetInfo::Throws, 2),
        (0x42, TargetInfo::Catch, 2),
        (0x43, TargetInfo::Offset, 2),
        (0x46, TargetInfo::Offset, 2),
        (0x47, TargetInfo::TypeArgument, 3),
        (0x4B, TargetInfo::TypeArgument, 3),
    ];
    for (target_type, kind, width) in kinds {
        let mut payload = vec![0, 1, target_type];
        payload.extend(std::iter::repeat(0xEE).take(width));
        payload.extend_from_slice(&[0, 0, 4, 0, 0]);
        assert_eq!(
            read_type_annotations_payload(&payload),
            Ok(vec![TypeAnnotation {
                target_info: kind,
                target_path: TypePath { path: vec![] },
                type_index: idx(4),
                element_value_pairs: vec![],
            }])
        );
    }
    for target_type in [0x02u8, 0x0F, 0x18, 0x3F, 0x4C, 0xFF] {
        assert_eq!(
            read_type_annotations_payload(&[0, 1, target_type, 0, 0, 0, 0, 0, 0]),
            Err(fault(FaultKind::UnknownTag, 2))
        );
    }
}

#[test]
fn type_annotation_faults() {
    assert_eq!(read_type_annotations_payload(&[0]), Err(fault(FaultKind::Truncated, 0)));
    assert_eq!(read_type_annotations_payload(&[0, 1]), Err(fault(FaultKind::Truncated, 2)));
    assert_eq!(read_type_annotations_payload(&[0, 1, 0x10, 0]), Err(fault(FaultKind::Truncated, 3)));
    assert_eq!(read_type_annotations_payload(&[0, 1, 0x40, 0]), Err(fault(FaultKind::Truncated, 3)));
    assert_eq!(
        read_type_annotations_payload(&[0, 1, 0x40, 0, 1, 0, 0]),
        Err(fault(FaultKind::Truncated, 5))
    );
    assert_eq!(
        read_type_annotations_payload(&[0, 1, 0x13, 1, 4, 0, 0, 1, 0, 0]),
        Err(fault(FaultKind::UnknownTag, 4))
    );
    assert_eq!(
        read_type_annotations_payload(&[0, 1, 0x13, 0, 0, 1, 0]),
        Err(fault(FaultKind::Truncated, 4))
    );
    assert_eq!(
        read_type_annotations_payload(&[0, 1, 0x13, 0, 0, 1, 0, 0, 0]),
        Err(fault(FaultKind::LengthMismatch, 8))
    );
}

fn pool_of(names: &[&str]) -> ConstantPool {
    ConstantPool::new(names.iter().map(|n| Constant::Utf8(n.as_bytes().to_vec())).collect())
}

#[test]
fn project_reads_a_raw_attribute_into_the_variant_of_its_name() {
    let pool = pool_of(&[
        "StackMapTable", "RuntimeVisibleAnnotations", "RuntimeInvisibleAnnotations",
        "RuntimeVisibleParameterAnnotations", "RuntimeInvisibleParameterAnnotations",
        "RuntimeVisibleTypeAnnotations", "RuntimeInvisibleTypeAnnotations", "AnnotationDefault",
    ]);
    let raw = |slot: usize, info: &[u8]| Attribute::RawAttribute { name_index: idx(slot), info: info.to_vec() };
    assert_eq!(
        project(&pool, &raw(1, &[0, 1, 251, 0, 9])),
        Some(Ok(Attribute::StackMapTable(vec![StackMapFrame::SameFrameExtended { offset_delta: 9 }])))
    );
    assert_eq!(
        project(&pool, &raw(2, &annotations_payload())),
        Some(Ok(Attribute::RuntimeVisibleAnnotations(annotations())))
    );
    assert_eq!(
        project(&pool, &raw(3, &annotations_payload())),
        Some(Ok(Attribute::RuntimeInvisibleAnnotations(annotations())))
    );
    assert_eq!(
        project(&pool, &raw(4, &[1, 0, 0])),
        Some(Ok(Attribute::RuntimeVisibleParameterAnnotations(vec![vec![]])))
    );
    assert_eq!(
        project(&pool, &raw(5, &[0])),
        Some(Ok(Attribute::RuntimeInvisibleParameterAnnotations(vec![])))
    );
    assert_eq!(
        project(&pool, &raw(6, &[0, 0])),
        Some(Ok(Attribute::RuntimeVisibleTypeAnnotations(vec![])))
    );
    assert_eq!(
        project(&pool, &raw(7, &[0, 0])),
        Some(Ok(Attribute::RuntimeInvisibleTypeAnnotations(vec![])))
    );
    assert_eq!(
        project(&pool, &raw(8, &[b'c', 0, 3])),
        Some(Ok(Attribute::AnnotationDefault(ElementValue::ClassInfo(idx(3)))))
    );
    assert_eq!(project(&pool, &raw(1, &[0, 1])), Some(Err(fault(FaultKind::Truncated, 2))));
    assert_eq!(project(&pool, &raw(8, &[b'?'])), Some(Err(fault(FaultKind::UnknownTag, 0))));
}

#[test]
fn project_gives_nothing_for_other_attributes() {
    let pool = ConstantPool::new(vec![
        Constant::Utf8("Custom".as_bytes().to_vec()),
        Constant::Integer(1),
        Constant::Utf8("StackMapTable".as_bytes().to_vec()),
        Constant::Utf8("Stackmaptable".as_bytes().to_vec()),
    ]);
    for slot in [0usize, 1, 2, 4, 5, 6, 0x10000, usize::MAX] {
        let raw = Attribute::RawAttribute { name_index: idx(slot), info: vec![0, 0] };
        assert_eq!(project(&pool, &raw), None);
    }
    let raw = Attribute::RawAttribute { name_index: idx(3), info: vec![0, 0] };
    assert_eq!(project(&pool, &raw), Some(Ok(Attribute::StackMapTable(vec![]))));
    assert_eq!(project(&pool, &Attribute::Deprecated), None);
    assert_eq!(project(&pool, &Attribute::StackMapTable(vec![])), None);
}

#[test]
fn decoded_stack_map_table_stays_raw_and_can_be_projected() {
    let mut bytes = vec![0xCA, 0xFE, 0xBA, 0xBE, 0, 0, 0, 52, 0, 2, 1, 0, 13];
    bytes.extend_from_slice("StackMapTable".as_bytes());
    bytes.extend_from_slice(&[0, 0x21, 0, 0, 0, 0, 0, 0, 0, 0, 0, 0]);
    bytes.extend_from_slice(&[0, 1, 0, 1, 0, 0, 0, 6, 0, 2, 17, 250, 0, 3]);
    let cf = decode(&bytes).unwrap();
    assert_eq!(
        cf.attributes,
        vec![Attribute::RawAttribute { name_index: idx(1), info: vec![0, 2, 17, 250, 0, 3] }]
    );
    assert_eq!(
        project(&cf.constant_pool, &cf.attributes[0]),
        Some(Ok(Attribute::StackMapTable(vec![
            StackMapFrame::SameFrame,
            StackMapFrame::ChopFrame { offset_delta: 3 },
        ])))
    );
    let mut out = Vec::new();
    assert_eq!(encode(&cf, &mut out), Ok(()));
    assert_eq!(out, bytes);
}
