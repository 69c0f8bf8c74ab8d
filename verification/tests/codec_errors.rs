use jvmti::bytecode::classfile::Attribute;
use jvmti::bytecode::classfile::Classfile;
use jvmti::bytecode::classfile::Constant;
use jvmti::bytecode::classfile::ConstantPool;
use jvmti::bytecode::classfile::ConstantPoolIndex;
use jvmti::bytecode::classfile::Field;
use jvmti::bytecode::classfile::Instruction;
use jvmti::bytecode::classfile::Method;
use jvmti::bytecode::classfile::StackMapFrame;
use jvmti::bytecode::decode;
use jvmti::bytecode::encode;
use jvmti::bytecode::DecodeError;
use jvmti::bytecode::EncodeError;
use jvmti::bytecode::FaultKind;
use jvmti::bytecode::Flaw;
use jvmti::bytecode::Section;

fn idx(i: usize) -> ConstantPoolIndex {
    ConstantPoolIndex::new(i)
}

fn utf8(s: &str) -> Constant {
    Constant::Utf8(s.as_bytes().to_vec())
}

fn failure(bytes: &[u8]) -> DecodeError {
    match decode(bytes) {
        Ok(cf) => panic!("decoded: {:?}", cf),
        Err(e) => e,
    }
}

fn fault(section: Section, kind: FaultKind, offset: usize) -> DecodeError {
    DecodeError { section, kind, offset }
}

fn flaw_of(cf: &Classfile) -> EncodeError {
    let mut out = vec![0xAA, 0xBB];
    match encode(cf, &mut out) {
        Ok(()) => panic!("encoded: {:?}", out),
        Err(e) => {
            assert_eq!(out, vec![0xAA, 0xBB]);
            e
        },
    }
}

fn flaw(section: Section, flaw: Flaw) -> EncodeError {
    EncodeError { section, flaw }
}

/// The header, a pool with the one name `name`, and the class information.
fn start(name: &str) -> Vec<u8> {
    let mut v = vec![0xCA, 0xFE, 0xBA, 0xBE, 0, 0, 0, 52, 0, 2, 1, 0, name.len() as u8];
    v.extend_from_slice(name.as_bytes());
    v.extend_from_slice(&[0, 0x21, 0, 0, 0, 0]);
    v
}

fn with_code(code: &[u8]) -> Vec<u8> {
    let mut v = start("Code");
    v.extend_from_slice(&[0, 0, 0, 0]);
    v.extend_from_slice(&[0, 1, 0, 1, 0, 0, 0, 0, 0, 1]);
    v.extend_from_slice(&[0, 1]);
    v.extend_from_slice(&((12 + code.len()) as u32).to_be_bytes());
    v.extend_from_slice(&[0, 2, 0, 1]);
    v.extend_from_slice(&(code.len() as u32).to_be_bytes());
    v.extend_from_slice(code);
    v.extend_from_slice(&[0, 0, 0, 0]);
    v.extend_from_slice(&[0, 0]);
    v
}

#[test]
fn short_input_is_truncated_in_the_header() {
    assert_eq!(failure(&[]), fault(Section::Header, FaultKind::Truncated, 0));
    assert_eq!(failure(&[0xCA, 0xFE, 0xBA]), fault(Section::Header, FaultKind::Truncated, 0));
    assert_eq!(
        failure(&[0xCA, 0xFE, 0xBA, 0xBE, 0, 0, 0]),
        fault(Section::Header, FaultKind::Truncated, 4)
    );
}

#[test]
fn wrong_magic_is_refused() {
    assert_eq!(
        failure(&[0xCA, 0xFE, 0xBA, 0xBF, 0, 0, 0, 52, 0, 1]),
        fault(Section::Header, FaultKind::BadMagic, 0)
    );
    assert_eq!(failure(&[0; 64]), fault(Section::Header, FaultKind::BadMagic, 0));
}

#[test]
fn pool_faults_name_the_constant_pool_and_the_offset() {
    let header = [0xCA, 0xFE, 0xBA, 0xBE, 0, 0, 0, 52];
    let with = |rest: &[u8]| {
        let mut v = header.to_vec();
        v.extend_from_slice(rest);
        v
    };
    assert_eq!(failure(&with(&[])), fault(Section::ConstantPool, FaultKind::Truncated, 8));
    assert_eq!(failure(&with(&[0])), fault(Section::ConstantPool, FaultKind::Truncated, 8));
    assert_eq!(failure(&with(&[0, 0])), fault(Section::ConstantPool, FaultKind::EmptyPoolCount, 8));
    assert_eq!(failure(&with(&[0, 2])), fault(Section::ConstantPool, FaultKind::Truncated, 10));
    assert_eq!(
        failure(&with(&[0, 2, 3, 0, 0])),
        fault(Section::ConstantPool, FaultKind::Truncated, 11)
    );
    // A string of five bytes of which three are there.
    assert_eq!(
        failure(&with(&[0, 2, 1, 0, 5, b'a', b'b', b'c'])),
        fault(Section::ConstantPool, FaultKind::Truncated, 13)
    );
    // A second constant that is not there.
    assert_eq!(
        failure(&with(&[0, 3, 7, 0, 1])),
        fault(Section::ConstantPool, FaultKind::Truncated, 13)
    );
}

#[test]
fn eight_byte_constant_in_the_last_slot_overruns_the_pool() {
    let bytes = [0xCA, 0xFE, 0xBA, 0xBE, 0, 0, 0, 52, 0, 2, 5, 0, 0, 0, 0, 0, 0, 0, 42, 0, 0, 0, 0];
    assert_eq!(failure(&bytes), fault(Section::ConstantPool, FaultKind::PoolOverrun, 10));
    let bytes = [
        0xCA, 0xFE, 0xBA, 0xBE, 0, 0, 0, 52, 0, 3, 3, 0, 0, 0, 1, 6, 0, 0, 0, 0, 0, 0, 0, 42, 0, 0,
    ];
    assert_eq!(failure(&bytes), fault(Section::ConstantPool, FaultKind::PoolOverrun, 15));
}

#[test]
fn sections_after_the_pool_name_themselves() {
    let base = start("x");
    let p = base.len() - 6;
    assert_eq!(failure(&base[..p]), fault(Section::ClassInfo, FaultKind::Truncated, p));
    assert_eq!(failure(&base[..p + 5]), fault(Section::ClassInfo, FaultKind::Truncated, p));
    assert_eq!(failure(&base), fault(Section::Interfaces, FaultKind::Truncated, p + 6));
    let mut v = base.clone();
    v.extend_from_slice(&[0, 2, 0, 1]);
    assert_eq!(failure(&v), fault(Section::Interfaces, FaultKind::Truncated, p + 10));
    let mut v = base.clone();
    v.extend_from_slice(&[0, 0]);
    assert_eq!(failure(&v), fault(Section::Fields, FaultKind::Truncated, p + 8));
    let mut v = base.clone();
    v.extend_from_slice(&[0, 0, 0, 1, 0, 0, 0, 0]);
    assert_eq!(failure(&v), fault(Section::Fields, FaultKind::Truncated, p + 10));
    let mut v = base.clone();
    v.extend_from_slice(&[0, 0, 0, 0]);
    assert_eq!(failure(&v), fault(Section::Methods, FaultKind::Truncated, p + 10));
    let mut v = base.clone();
    v.extend_from_slice(&[0, 0, 0, 0, 0, 1, 0, 0, 0, 0, 0, 0]);
    assert_eq!(failure(&v), fault(Section::Methods, FaultKind::Truncated, p + 18));
    let mut v = base.clone();
    v.extend_from_slice(&[0, 0, 0, 0, 0, 0]);
    assert_eq!(failure(&v), fault(Section::Attributes, FaultKind::Truncated, p + 12));
    let mut v = base.clone();
    v.extend_from_slice(&[0, 0, 0, 0, 0, 0, 0, 1, 0, 1, 0, 0]);
    assert_eq!(failure(&v), fault(Section::Attributes, FaultKind::Truncated, p + 14));
}

#[test]
fn bytes_after_the_class_are_refused() {
    let mut v = start("x");
    v.extend_from_slice(&[0, 0, 0, 0, 0, 0, 0, 0]);
    assert!(decode(&v).is_ok());
    let end = v.len();
    v.push(0);
    assert_eq!(failure(&v), fault(Section::Attributes, FaultKind::TrailingBytes, end));
}

#[test]
fn declared_length_past_the_end_is_truncation() {
    let mut v = start("x");
    v.extend_from_slice(&[0, 0, 0, 0, 0, 0, 0, 1, 0, 1, 0, 0, 0, 4, 1, 2, 3]);
    let payload = v.len() - 3;
    assert_eq!(failure(&v), fault(Section::Attributes, FaultKind::Truncated, payload));
    let mut v = start("x");
    v.extend_from_slice(&[0, 0, 0, 0, 0, 0, 0, 1, 0, 1, 0xFF, 0xFF, 0xFF, 0xFF]);
    let payload = v.len();
    assert_eq!(failure(&v), fault(Section::Attributes, FaultKind::Truncated, payload));
}

#[test]
fn payload_that_is_longer_than_its_attribute_is_a_length_mismatch() {
    let mut v = start("SourceFile");
    v.extend_from_slice(&[0, 0, 0, 0, 0, 0, 0, 1, 0, 1, 0, 0, 0, 3, 0, 9, 0]);
    let payload = v.len() - 3;
    assert_eq!(failure(&v), fault(Section::Attributes, FaultKind::LengthMismatch, payload));
    let mut v = start("Deprecated");
    v.extend_from_slice(&[0, 0, 0, 0, 0, 0, 0, 1, 0, 1, 0, 0, 0, 1, 0]);
    let payload = v.len() - 1;
    assert_eq!(failure(&v), fault(Section::Attributes, FaultKind::LengthMismatch, payload));
    let mut v = start("Exceptions");
    v.extend_from_slice(&[0, 0, 0, 0, 0, 0, 0, 1, 0, 1, 0, 0, 0, 6, 0, 1, 0, 5, 0, 6]);
    let payload = v.len() - 6;
    assert_eq!(failure(&v), fault(Section::Attributes, FaultKind::LengthMismatch, payload));
}

#[test]
fn payload_that_is_shorter_than_its_layout_is_truncation() {
    let mut v = start("SourceFile");
    v.extend_from_slice(&[0, 0, 0, 0, 0, 0, 0, 1, 0, 1, 0, 0, 0, 1, 0]);
    let payload = v.len() - 1;
    assert_eq!(failure(&v), fault(Section::Attributes, FaultKind::Truncated, payload));
    let mut v = start("Exceptions");
    v.extend_from_slice(&[0, 0, 0, 0, 0, 0, 0, 1, 0, 1, 0, 0, 0, 4, 0, 2, 0, 5]);
    let second = v.len();
    assert_eq!(failure(&v), fault(Section::Attributes, FaultKind::Truncated, second));
    // The next attribute is not read into the payload.
    let mut v = start("SourceFile");
    v.extend_from_slice(&[0, 0, 0, 0, 0, 0, 0, 2, 0, 1, 0, 0, 0, 1, 0, 0, 1, 0, 0, 0, 2, 0, 0]);
    let payload = v.len() - 9;
    assert_eq!(failure(&v), fault(Section::Attributes, FaultKind::Truncated, payload));
}

#[test]
fn opcodes_without_a_layout_are_refused() {
    for op in [0xAAu8, 0xC4, 0xCA, 0xFE, 0xFF] {
        let v = with_code(&[0x00, op, 0x00]);
        let at = v.len() - 2 - 4 - 3 + 1;
        assert_eq!(failure(&v), fault(Section::Methods, FaultKind::UnsupportedOpcode, at));
    }
}

#[test]
fn instruction_that_runs_past_the_code_array_is_truncation() {
    // `sipush` with one operand byte: the exception table is not read as
    // the second.
    let v = with_code(&[0x00, 0x11, 0x01]);
    let operand = v.len() - 2 - 4 - 3 + 2;
    assert_eq!(failure(&v), fault(Section::Methods, FaultKind::Truncated, operand));
    let v = with_code(&[0xAB, 0, 0, 0, 0, 0, 0, 0, 0, 0, 0, 1, 0, 0, 0, 1]);
    let pair = v.len() - 2 - 4 - 4;
    assert_eq!(failure(&v), fault(Section::Methods, FaultKind::Truncated, pair));
    // Three bytes of padding of which one is there.
    let v = with_code(&[0xAB, 0]);
    let padding = v.len() - 2 - 4 - 1;
    assert_eq!(failure(&v), fault(Section::Methods, FaultKind::Truncated, padding));
    // The padding is there, the default offset is not.
    let v = with_code(&[0x00, 0x00, 0xAB, 0]);
    let default = v.len() - 2 - 4;
    assert_eq!(failure(&v), fault(Section::Methods, FaultKind::Truncated, default));
}

#[test]
fn code_length_past_the_attribute_is_truncation() {
    let mut v = start("Code");
    v.extend_from_slice(&[0, 0, 0, 0, 0, 0, 0, 1, 0, 1, 0, 0, 0, 12]);
    v.extend_from_slice(&[0, 2, 0, 1, 0, 0, 0, 5, 0, 0, 0, 0]);
    let code = v.len() - 4;
    assert_eq!(failure(&v), fault(Section::Attributes, FaultKind::Truncated, code));
}

#[test]
fn index_that_does_not_fit_is_refused() {
    let mut cf = Classfile::new();
    cf.this_class = idx(0x10000);
    assert_eq!(flaw_of(&cf), flaw(Section::ClassInfo, Flaw::IndexOutOfRange));
    let mut cf = Classfile::new();
    cf.super_class = idx(usize::MAX);
    assert_eq!(flaw_of(&cf), flaw(Section::ClassInfo, Flaw::IndexOutOfRange));
    let mut cf = Classfile::new();
    cf.this_class = idx(0xFFFF);
    assert!(encode(&cf, &mut Vec::new()).is_ok());
    let mut cf = Classfile::new();
    cf.interfaces = vec![idx(1), idx(0x10000)];
    assert_eq!(flaw_of(&cf), flaw(Section::Interfaces, Flaw::IndexOutOfRange));
    let mut cf = Classfile::new();
    cf.constant_pool = ConstantPool::new(vec![Constant::Class(idx(0x10000))]);
    assert_eq!(flaw_of(&cf), flaw(Section::ConstantPool, Flaw::IndexOutOfRange));
    let mut cf = Classfile::new();
    let mut field = Field::default();
    field.descriptor_index = idx(70000);
    cf.fields = vec![field];
    assert_eq!(flaw_of(&cf), flaw(Section::Fields, Flaw::IndexOutOfRange));
    let mut cf = Classfile::new();
    cf.attributes = vec![Attribute::RawAttribute { name_index: idx(0x10000), info: vec![] }];
    assert_eq!(flaw_of(&cf), flaw(Section::Attributes, Flaw::IndexOutOfRange));
}

#[test]
fn list_that_is_too_long_for_its_count_is_refused() {
    let mut cf = Classfile::new();
    cf.interfaces = vec![idx(1); 0x10000];
    assert_eq!(flaw_of(&cf), flaw(Section::Interfaces, Flaw::CountOutOfRange));
    let mut cf = Classfile::new();
    cf.interfaces = vec![idx(1); 0xFFFF];
    assert!(encode(&cf, &mut Vec::new()).is_ok());
    let mut cf = Classfile::new();
    cf.constant_pool = ConstantPool::new(vec![Constant::Integer(0); 0xFFFF]);
    assert_eq!(flaw_of(&cf), flaw(Section::ConstantPool, Flaw::CountOutOfRange));
    let mut cf = Classfile::new();
    cf.constant_pool = ConstantPool::new(vec![Constant::Integer(0); 0xFFFE]);
    assert!(encode(&cf, &mut Vec::new()).is_ok());
    let mut cf = Classfile::new();
    cf.constant_pool = ConstantPool::new(vec![utf8("MethodParameters")]);
    cf.attributes = vec![Attribute::MethodParameters(vec![
        jvmti::bytecode::classfile::MethodParameter {
            name_index: idx(0),
            access_flags: jvmti::bytecode::classfile::AccessFlags::of(0),
        };
        256
    ])];
    assert_eq!(flaw_of(&cf), flaw(Section::Attributes, Flaw::CountOutOfRange));
}

#[test]
fn string_that_is_too_long_for_its_length_is_refused() {
    let mut cf = Classfile::new();
    cf.constant_pool = ConstantPool::new(vec![Constant::Utf8(vec![b'a'; 0x10000])]);
    assert_eq!(flaw_of(&cf), flaw(Section::ConstantPool, Flaw::LengthOutOfRange));
    let mut cf = Classfile::new();
    cf.constant_pool = ConstantPool::new(vec![Constant::Utf8(vec![b'a'; 0xFFFF])]);
    let mut out = Vec::new();
    assert_eq!(encode(&cf, &mut out), Ok(()));
    assert_eq!(decode(&out).unwrap(), cf);
}

#[test]
fn placeholders_have_to_follow_eight_byte_constants() {
    for constants in [
        vec![Constant::Long(1)],
        vec![Constant::Long(1), Constant::Integer(2)],
        vec![Constant::Double(1), Constant::Long(2), Constant::Placeholder],
        vec![Constant::Placeholder],
        vec![Constant::Integer(1), Constant::Placeholder],
        vec![Constant::Long(1), Constant::Placeholder, Constant::Placeholder],
    ] {
        let mut cf = Classfile::new();
        cf.constant_pool = ConstantPool::new(constants);
        assert_eq!(flaw_of(&cf), flaw(Section::ConstantPool, Flaw::MisplacedPlaceholder));
    }
}

#[test]
fn unknown_constant_with_a_defined_tag_is_refused() {
    for tag in [1u8, 3, 4, 5, 6, 7, 8, 9, 10, 11, 12, 15, 16, 18] {
        let mut cf = Classfile::new();
        cf.constant_pool = ConstantPool::new(vec![Constant::Unknown(tag)]);
        assert_eq!(flaw_of(&cf), flaw(Section::ConstantPool, Flaw::DefinedTag));
    }
    for tag in [0u8, 2, 13, 14, 17, 19, 20, 255] {
        let mut cf = Classfile::new();
        cf.constant_pool = ConstantPool::new(vec![Constant::Unknown(tag)]);
        let mut out = Vec::new();
        assert_eq!(encode(&cf, &mut out), Ok(()));
        assert_eq!(decode(&out).unwrap(), cf);
    }
}

#[test]
fn attribute_without_its_name_in_the_pool_is_refused() {
    let mut cf = Classfile::new();
    cf.attributes = vec![Attribute::SourceFile(idx(1))];
    assert_eq!(flaw_of(&cf), flaw(Section::Attributes, Flaw::MissingName));
    cf.constant_pool = ConstantPool::new(vec![utf8("Sourcefile"), utf8("SourceFil"), utf8("SourceFile ")]);
    assert_eq!(flaw_of(&cf), flaw(Section::Attributes, Flaw::MissingName));
    cf.constant_pool = ConstantPool::new(vec![utf8("Sourcefile"), utf8("SourceFile")]);
    let mut out = Vec::new();
    assert_eq!(encode(&cf, &mut out), Ok(()));
    assert_eq!(&out[out.len() - 8..], &[0, 2, 0, 0, 0, 2, 0, 1]);
    let mut cf = Classfile::new();
    let mut method = Method::default();
    method.attributes = vec![Attribute::Deprecated];
    cf.methods = vec![method];
    assert_eq!(flaw_of(&cf), flaw(Section::Methods, Flaw::MissingName));
}

#[test]
fn raw_attribute_under_a_structured_name_is_refused() {
    let mut cf = Classfile::new();
    cf.constant_pool = ConstantPool::new(vec![utf8("Code"), utf8("Other")]);
    cf.attributes = vec![Attribute::RawAttribute { name_index: idx(1), info: vec![1, 2] }];
    assert_eq!(flaw_of(&cf), flaw(Section::Attributes, Flaw::StructuredName));
    cf.attributes = vec![Attribute::RawAttribute { name_index: idx(2), info: vec![1, 2] }];
    assert!(encode(&cf, &mut Vec::new()).is_ok());
}

#[test]
fn instructions_without_operands_in_the_model_are_refused() {
    for instruction in [Instruction::TABLESWITCH, Instruction::WIDE] {
        let mut cf = Classfile::new();
        cf.constant_pool = ConstantPool::new(vec![utf8("Code")]);
        let mut method = Method::default();
        method.attributes = vec![Attribute::Code {
            max_stack: 0,
            max_locals: 0,
            code: vec![Instruction::NOP, instruction],
            exception_table: vec![],
            attributes: vec![],
        }];
        cf.methods = vec![method];
        assert_eq!(flaw_of(&cf), flaw(Section::Methods, Flaw::UnsupportedInstruction));
    }
}

#[test]
fn attributes_that_the_model_holds_in_part_are_refused() {
    let mut cf = Classfile::new();
    cf.constant_pool = ConstantPool::new(vec![utf8("StackMapTable")]);
    cf.attributes = vec![Attribute::StackMapTable(vec![StackMapFrame::SameFrame])];
    assert_eq!(flaw_of(&cf), flaw(Section::Attributes, Flaw::UnsupportedAttribute));
    cf.attributes = vec![Attribute::RuntimeVisibleAnnotations(vec![])];
    assert_eq!(flaw_of(&cf), flaw(Section::Attributes, Flaw::UnsupportedAttribute));
}

#[test]
fn first_flaw_in_the_order_of_the_file_is_reported() {
    let mut cf = Classfile::new();
    cf.constant_pool = ConstantPool::new(vec![Constant::Placeholder]);
    cf.this_class = idx(0x10000);
    cf.attributes = vec![Attribute::Deprecated];
    assert_eq!(flaw_of(&cf), flaw(Section::ConstantPool, Flaw::MisplacedPlaceholder));
    cf.constant_pool = ConstantPool::new(vec![]);
    assert_eq!(flaw_of(&cf), flaw(Section::ClassInfo, Flaw::IndexOutOfRange));
    cf.this_class = idx(1);
    assert_eq!(flaw_of(&cf), flaw(Section::Attributes, Flaw::MissingName));
}
