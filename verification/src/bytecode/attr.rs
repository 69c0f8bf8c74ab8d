//! The codec of attributes.
//!
//! An attribute is framed by the index of its name, the length of its
//! payload and the payload. The name decides how the payload is read: a
//! name of the table below gives the variant of that name, any other name
//! a `RawAttribute` that keeps the payload as bytes.
use vstd::prelude::*;
use crate::bytecode::classfile::Attribute;
use crate::bytecode::classfile::AttributeView;
use crate::bytecode::classfile::BootstrapMethodView;
use crate::bytecode::classfile::Constant;
use crate::bytecode::classfile::ConstantPool;
use crate::bytecode::classfile::ConstantPoolIndex;
use crate::bytecode::classfile::ConstantView;
use crate::bytecode::classfile::ExceptionHandler;
use crate::bytecode::classfile::InnerClass;
use crate::bytecode::classfile::Insn;
use crate::bytecode::classfile::LineNumberTable;
use crate::bytecode::classfile::LocalVariableTable;
use crate::bytecode::classfile::LocalVariableTableType;
use crate::bytecode::classfile::MethodParameter;
use crate::bytecode::classfile::attrs_view;
use crate::bytecode::classfile::code_view;
use crate::bytecode::classfile::lemma_code_attributes_view;
use crate::bytecode::classfile::utf8_at;
use crate::bytecode::insn::dec_code;
use crate::bytecode::insn::enc_code;
use crate::bytecode::insn::lemma_code_encodable;
use crate::bytecode::insn::lemma_code_round_trip;
use crate::bytecode::insn::read_code;
use crate::bytecode::insn::write_code;
use crate::bytecode::pool::dec_index;
use crate::bytecode::pool::dec_index_pair;
use crate::bytecode::pool::enc_index;
use crate::bytecode::pool::lemma_index_encodable;
use crate::bytecode::pool::lemma_index_pair_round_trip;
use crate::bytecode::pool::lemma_index_round_trip;
use crate::bytecode::pool::read_index;
use crate::bytecode::pool::read_index_pair;
use crate::bytecode::pool::write_index;
use crate::bytecode::pool::write_index_pair;
use crate::bytecode::record::dec_counted8;
use crate::bytecode::record::dec_counted;
use crate::bytecode::record::enc_counted8;
use crate::bytecode::record::enc_counted;
use crate::bytecode::record::lemma_counted8_encodable;
use crate::bytecode::record::lemma_counted8_round_trip;
use crate::bytecode::record::lemma_counted_encodable;
use crate::bytecode::record::lemma_counted_round_trip;
use crate::bytecode::record::read_counted8;
use crate::bytecode::record::read_counted;
use crate::bytecode::record::write_counted8;
use crate::bytecode::record::write_counted;
use crate::bytecode::records::read_bootstrap_methods;
use crate::bytecode::records::write_bootstrap_methods;
use crate::bytecode::wire::Fault;
use crate::bytecode::wire::FaultKind;
use crate::bytecode::wire::Flaw;
use crate::bytecode::wire::agrees;
use crate::bytecode::wire::agrees_with;
use crate::bytecode::wire::appended;
use crate::bytecode::wire::be16;
use crate::bytecode::wire::be32;
use crate::bytecode::wire::fault;
use crate::bytecode::wire::get_bytes;
use crate::bytecode::wire::get_u32;
use crate::bytecode::wire::in_region;
use crate::bytecode::wire::lemma_occurs_split;
use crate::bytecode::wire::lemma_occurs_u16;
use crate::bytecode::wire::lemma_word32;
use crate::bytecode::wire::occurs;
use crate::bytecode::wire::peek_u16;
use crate::bytecode::wire::prepend;
use crate::bytecode::wire::put_bytes;
use crate::bytecode::wire::put_u16;
use crate::bytecode::wire::put_u32;
use crate::bytecode::wire::then;
use crate::bytecode::wire::truncated;
use crate::bytecode::wire::word16;
use crate::bytecode::wire::word32;

verus! {

broadcast use crate::bytecode::wire::group_wire_lengths;

/// The attributes whose payload is read into a variant of its own: those
/// of which the model holds the whole payload.
#[derive(Clone, Copy, Debug, PartialEq, Eq, Structural)]
pub enum AttrKind {
    ConstantValue,
    Code,
    Exceptions,
    InnerClasses,
    EnclosingMethod,
    Synthetic,
    Signature,
    SourceFile,
    SourceDebugExtension,
    LineNumberTable,
    LocalVariableTable,
    LocalVariableTypeTable,
    Deprecated,
    BootstrapMethods,
    MethodParameters,
}

/// The name of the attributes of kind `kind`, in ASCII.
pub open spec fn name_of(kind: AttrKind) -> Seq<u8> {
    match kind {
        // "ConstantValue"
        AttrKind::ConstantValue => seq![
            67u8, 111u8, 110u8, 115u8, 116u8, 97u8, 110u8, 116u8, 86u8, 97u8, 108u8, 117u8,
            101u8,
        ],
        // "Code"
        AttrKind::Code => seq![67u8, 111u8, 100u8, 101u8],
        // "Exceptions"
        AttrKind::Exceptions => seq![
            69u8, 120u8, 99u8, 101u8, 112u8, 116u8, 105u8, 111u8, 110u8, 115u8,
        ],
        // "InnerClasses"
        AttrKind::InnerClasses => seq![
            73u8, 110u8, 110u8, 101u8, 114u8, 67u8, 108u8, 97u8, 115u8, 115u8, 101u8, 115u8,
        ],
        // "EnclosingMethod"
        AttrKind::EnclosingMethod => seq![
            69u8, 110u8, 99u8, 108u8, 111u8, 115u8, 105u8, 110u8, 103u8, 77u8, 101u8, 116u8,
            104u8, 111u8, 100u8,
        ],
        // "Synthetic"
        AttrKind::Synthetic => seq![83u8, 121u8, 110u8, 116u8, 104u8, 101u8, 116u8, 105u8, 99u8],
        // "Signature"
        AttrKind::Signature => seq![83u8, 105u8, 103u8, 110u8, 97u8, 116u8, 117u8, 114u8, 101u8],
        // "SourceFile"
        AttrKind::SourceFile => seq![
            83u8, 111u8, 117u8, 114u8, 99u8, 101u8, 70u8, 105u8, 108u8, 101u8,
        ],
        // "SourceDebugExtension"
        AttrKind::SourceDebugExtension => seq![
            83u8, 111u8, 117u8, 114u8, 99u8, 101u8, 68u8, 101u8, 98u8, 117u8, 103u8, 69u8,
            120u8, 116u8, 101u8, 110u8, 115u8, 105u8, 111u8, 110u8,
        ],
        // "LineNumberTable"
        AttrKind::LineNumberTable => seq![
            76u8, 105u8, 110u8, 101u8, 78u8, 117u8, 109u8, 98u8, 101u8, 114u8, 84u8, 97u8,
            98u8, 108u8, 101u8,
        ],
        // "LocalVariableTable"
        AttrKind::LocalVariableTable => seq![
            76u8, 111u8, 99u8, 97u8, 108u8, 86u8, 97u8, 114u8, 105u8, 97u8, 98u8, 108u8,
            101u8, 84u8, 97u8, 98u8, 108u8, 101u8,
        ],
        // "LocalVariableTypeTable"
        AttrKind::LocalVariableTypeTable => seq![
            76u8, 111u8, 99u8, 97u8, 108u8, 86u8, 97u8, 114u8, 105u8, 97u8, 98u8, 108u8,
            101u8, 84u8, 121u8, 112u8, 101u8, 84u8, 97u8, 98u8, 108u8, 101u8,
        ],
        // "Deprecated"
        AttrKind::Deprecated => seq![
            68u8, 101u8, 112u8, 114u8, 101u8, 99u8, 97u8, 116u8, 101u8, 100u8,
        ],
        // "BootstrapMethods"
        AttrKind::BootstrapMethods => seq![
            66u8, 111u8, 111u8, 116u8, 115u8, 116u8, 114u8, 97u8, 112u8, 77u8, 101u8, 116u8,
            104u8, 111u8, 100u8, 115u8,
        ],
        // "MethodParameters"
        AttrKind::MethodParameters => seq![
            77u8, 101u8, 116u8, 104u8, 111u8, 100u8, 80u8, 97u8, 114u8, 97u8, 109u8, 101u8,
            116u8, 101u8, 114u8, 115u8,
        ],
    }
}

/// The kind that bears the name `name`, if one does.
#[verifier::opaque]
pub open spec fn kind_of_name(name: Seq<u8>) -> Option<AttrKind> {
    if name == name_of(AttrKind::ConstantValue) {
        Some(AttrKind::ConstantValue)
    } else if name == name_of(AttrKind::Code) {
        Some(AttrKind::Code)
    } else if name == name_of(AttrKind::Exceptions) {
        Some(AttrKind::Exceptions)
    } else if name == name_of(AttrKind::InnerClasses) {
        Some(AttrKind::InnerClasses)
    } else if name == name_of(AttrKind::EnclosingMethod) {
        Some(AttrKind::EnclosingMethod)
    } else if name == name_of(AttrKind::Synthetic) {
        Some(AttrKind::Synthetic)
    } else if name == name_of(AttrKind::Signature) {
        Some(AttrKind::Signature)
    } else if name == name_of(AttrKind::SourceFile) {
        Some(AttrKind::SourceFile)
    } else if name == name_of(AttrKind::SourceDebugExtension) {
        Some(AttrKind::SourceDebugExtension)
    } else if name == name_of(AttrKind::LineNumberTable) {
        Some(AttrKind::LineNumberTable)
    } else if name == name_of(AttrKind::LocalVariableTable) {
        Some(AttrKind::LocalVariableTable)
    } else if name == name_of(AttrKind::LocalVariableTypeTable) {
        Some(AttrKind::LocalVariableTypeTable)
    } else if name == name_of(AttrKind::Deprecated) {
        Some(AttrKind::Deprecated)
    } else if name == name_of(AttrKind::BootstrapMethods) {
        Some(AttrKind::BootstrapMethods)
    } else if name == name_of(AttrKind::MethodParameters) {
        Some(AttrKind::MethodParameters)
    } else {
        None
    }
}

/// The bytes `n` are the name of the attributes of kind `kind`.
pub fn is_name(n: &Vec<u8>, kind: AttrKind) -> (r: bool)
    ensures
        r == (n@ == name_of(kind)),
{
    match kind {
        AttrKind::ConstantValue => {
            let r = n.len() == 13 && n[0] == 67 && n[1] == 111 && n[2] == 110 && n[3] == 115
                && n[4] == 116 && n[5] == 97 && n[6] == 110 && n[7] == 116 && n[8] == 86
                && n[9] == 97 && n[10] == 108 && n[11] == 117 && n[12] == 101;
            proof {
                let name = name_of(AttrKind::ConstantValue);
                if r {
                    assert(n@ =~= name);
                } else if n@.len() == 13 {
                    assert(name[0] == 67);
                    assert(name[1] == 111);
                    assert(name[2] == 110);
                    assert(name[3] == 115);
                    assert(name[4] == 116);
                    assert(name[5] == 97);
                    assert(name[6] == 110);
                    assert(name[7] == 116);
                    assert(name[8] == 86);
                    assert(name[9] == 97);
                    assert(name[10] == 108);
                    assert(name[11] == 117);
                    assert(name[12] == 101);
                }
            }
            r
        },
        AttrKind::Code => {
            let r = n.len() == 4 && n[0] == 67 && n[1] == 111 && n[2] == 100 && n[3] == 101;
            proof {
                let name = name_of(AttrKind::Code);
                if r {
                    assert(n@ =~= name);
                } else if n@.len() == 4 {
                    assert(name[0] == 67);
                    assert(name[1] == 111);
                    assert(name[2] == 100);
                    assert(name[3] == 101);
                }
            }
            r
        },
        AttrKind::Exceptions => {
            let r = n.len() == 10 && n[0] == 69 && n[1] == 120 && n[2] == 99 && n[3] == 101
                && n[4] == 112 && n[5] == 116 && n[6] == 105 && n[7] == 111 && n[8] == 110
                && n[9] == 115;
            proof {
                let name = name_of(AttrKind::Exceptions);
                if r {
                    assert(n@ =~= name);
                } else if n@.len() == 10 {
                    assert(name[0] == 69);
                    assert(name[1] == 120);
                    assert(name[2] == 99);
                    assert(name[3] == 101);
                    assert(name[4] == 112);
                    assert(name[5] == 116);
                    assert(name[6] == 105);
                    assert(name[7] == 111);
                    assert(name[8] == 110);
                    assert(name[9] == 115);
                }
            }
            r
        },
        AttrKind::InnerClasses => {
            let r = n.len() == 12 && n[0] == 73 && n[1] == 110 && n[2] == 110 && n[3] == 101
                && n[4] == 114 && n[5] == 67 && n[6] == 108 && n[7] == 97 && n[8] == 115
                && n[9] == 115 && n[10] == 101 && n[11] == 115;
            proof {
                let name = name_of(AttrKind::InnerClasses);
                if r {
                    assert(n@ =~= name);
                } else if n@.len() == 12 {
                    assert(name[0] == 73);
                    assert(name[1] == 110);
                    assert(name[2] == 110);
                    assert(name[3] == 101);
                    assert(name[4] == 114);
                    assert(name[5] == 67);
                    assert(name[6] == 108);
                    assert(name[7] == 97);
                    assert(name[8] == 115);
                    assert(name[9] == 115);
                    assert(name[10] == 101);
                    assert(name[11] == 115);
                }
            }
            r
        },
        AttrKind::EnclosingMethod => {
            let r = n.len() == 15 && n[0] == 69 && n[1] == 110 && n[2] == 99 && n[3] == 108
                && n[4] == 111 && n[5] == 115 && n[6] == 105 && n[7] == 110 && n[8] == 103
                && n[9] == 77 && n[10] == 101 && n[11] == 116 && n[12] == 104 && n[13] == 111
                && n[14] == 100;
            proof {
                let name = name_of(AttrKind::EnclosingMethod);
                if r {
                    assert(n@ =~= name);
                } else if n@.len() == 15 {
                    assert(name[0] == 69);
                    assert(name[1] == 110);
                    assert(name[2] == 99);
                    assert(name[3] == 108);
                    assert(name[4] == 111);
                    assert(name[5] == 115);
                    assert(name[6] == 105);
                    assert(name[7] == 110);
                    assert(name[8] == 103);
                    assert(name[9] == 77);
                    assert(name[10] == 101);
                    assert(name[11] == 116);
                    assert(name[12] == 104);
                    assert(name[13] == 111);
                    assert(name[14] == 100);
                }
            }
            r
        },
        AttrKind::Synthetic => {
            let r = n.len() == 9 && n[0] == 83 && n[1] == 121 && n[2] == 110 && n[3] == 116
                && n[4] == 104 && n[5] == 101 && n[6] == 116 && n[7] == 105 && n[8] == 99;
            proof {
                let name = name_of(AttrKind::Synthetic);
                if r {
                    assert(n@ =~= name);
                } else if n@.len() == 9 {
                    assert(name[0] == 83);
                    assert(name[1] == 121);
                    assert(name[2] == 110);
                    assert(name[3] == 116);
                    assert(name[4] == 104);
                    assert(name[5] == 101);
                    assert(name[6] == 116);
                    assert(name[7] == 105);
                    assert(name[8] == 99);
                }
            }
            r
        },
        AttrKind::Signature => {
            let r = n.len() == 9 && n[0] == 83 && n[1] == 105 && n[2] == 103 && n[3] == 110
                && n[4] == 97 && n[5] == 116 && n[6] == 117 && n[7] == 114 && n[8] == 101;
            proof {
                let name = name_of(AttrKind::Signature);
                if r {
                    assert(n@ =~= name);
                } else if n@.len() == 9 {
                    assert(name[0] == 83);
                    assert(name[1] == 105);
                    assert(name[2] == 103);
                    assert(name[3] == 110);
                    assert(name[4] == 97);
                    assert(name[5] == 116);
                    assert(name[6] == 117);
                    assert(name[7] == 114);
                    assert(name[8] == 101);
                }
            }
            r
        },
        AttrKind::SourceFile => {
            let r = n.len() == 10 && n[0] == 83 && n[1] == 111 && n[2] == 117 && n[3] == 114
                && n[4] == 99 && n[5] == 101 && n[6] == 70 && n[7] == 105 && n[8] == 108
                && n[9] == 101;
            proof {
                let name = name_of(AttrKind::SourceFile);
                if r {
                    assert(n@ =~= name);
                } else if n@.len() == 10 {
                    assert(name[0] == 83);
                    assert(name[1] == 111);
                    assert(name[2] == 117);
                    assert(name[3] == 114);
                    assert(name[4] == 99);
                    assert(name[5] == 101);
                    assert(name[6] == 70);
                    assert(name[7] == 105);
                    assert(name[8] == 108);
                    assert(name[9] == 101);
                }
            }
            r
        },
        AttrKind::SourceDebugExtension => {
            let r = n.len() == 20 && n[0] == 83 && n[1] == 111 && n[2] == 117 && n[3] == 114
                && n[4] == 99 && n[5] == 101 && n[6] == 68 && n[7] == 101 && n[8] == 98
                && n[9] == 117 && n[10] == 103 && n[11] == 69 && n[12] == 120 && n[13] == 116
                && n[14] == 101 && n[15] == 110 && n[16] == 115 && n[17] == 105 && n[18] == 111
                && n[19] == 110;
            proof {
                let name = name_of(AttrKind::SourceDebugExtension);
                if r {
                    assert(n@ =~= name);
                } else if n@.len() == 20 {
                    assert(name[0] == 83);
                    assert(name[1] == 111);
                    assert(name[2] == 117);
                    assert(name[3] == 114);
                    assert(name[4] == 99);
                    assert(name[5] == 101);
                    assert(name[6] == 68);
                    assert(name[7] == 101);
                    assert(name[8] == 98);
                    assert(name[9] == 117);
                    assert(name[10] == 103);
                    assert(name[11] == 69);
                    assert(name[12] == 120);
                    assert(name[13] == 116);
                    assert(name[14] == 101);
                    assert(name[15] == 110);
                    assert(name[16] == 115);
                    assert(name[17] == 105);
                    assert(name[18] == 111);
                    assert(name[19] == 110);
                }
            }
            r
        },
        AttrKind::LineNumberTable => {
            let r = n.len() == 15 && n[0] == 76 && n[1] == 105 && n[2] == 110 && n[3] == 101
                && n[4] == 78 && n[5] == 117 && n[6] == 109 && n[7] == 98 && n[8] == 101
                && n[9] == 114 && n[10] == 84 && n[11] == 97 && n[12] == 98 && n[13] == 108
                && n[14] == 101;
            proof {
                let name = name_of(AttrKind::LineNumberTable);
                if r {
                    assert(n@ =~= name);
                } else if n@.len() == 15 {
                    assert(name[0] == 76);
                    assert(name[1] == 105);
                    assert(name[2] == 110);
                    assert(name[3] == 101);
                    assert(name[4] == 78);
                    assert(name[5] == 117);
                    assert(name[6] == 109);
                    assert(name[7] == 98);
                    assert(name[8] == 101);
                    assert(name[9] == 114);
                    assert(name[10] == 84);
                    assert(name[11] == 97);
                    assert(name[12] == 98);
                    assert(name[13] == 108);
                    assert(name[14] == 101);
                }
            }
            r
        },
        AttrKind::LocalVariableTable => {
            let r = n.len() == 18 && n[0] == 76 && n[1] == 111 && n[2] == 99 && n[3] == 97
                && n[4] == 108 && n[5] == 86 && n[6] == 97 && n[7] == 114 && n[8] == 105
                && n[9] == 97 && n[10] == 98 && n[11] == 108 && n[12] == 101 && n[13] == 84
                && n[14] == 97 && n[15] == 98 && n[16] == 108 && n[17] == 101;
            proof {
                let name = name_of(AttrKind::LocalVariableTable);
                if r {
                    assert(n@ =~= name);
                } else if n@.len() == 18 {
                    assert(name[0] == 76);
                    assert(name[1] == 111);
                    assert(name[2] == 99);
                    assert(name[3] == 97);
                    assert(name[4] == 108);
                    assert(name[5] == 86);
                    assert(name[6] == 97);
                    assert(name[7] == 114);
                    assert(name[8] == 105);
                    assert(name[9] == 97);
                    assert(name[10] == 98);
                    assert(name[11] == 108);
                    assert(name[12] == 101);
                    assert(name[13] == 84);
                    assert(name[14] == 97);
                    assert(name[15] == 98);
                    assert(name[16] == 108);
                    assert(name[17] == 101);
                }
            }
            r
        },
        AttrKind::LocalVariableTypeTable => {
            let r = n.len() == 22 && n[0] == 76 && n[1] == 111 && n[2] == 99 && n[3] == 97
                && n[4] == 108 && n[5] == 86 && n[6] == 97 && n[7] == 114 && n[8] == 105
                && n[9] == 97 && n[10] == 98 && n[11] == 108 && n[12] == 101 && n[13] == 84
                && n[14] == 121 && n[15] == 112 && n[16] == 101 && n[17] == 84 && n[18] == 97
                && n[19] == 98 && n[20] == 108 && n[21] == 101;
            proof {
                let name = name_of(AttrKind::LocalVariableTypeTable);
                if r {
                    assert(n@ =~= name);
                } else if n@.len() == 22 {
                    assert(name[0] == 76);
                    assert(name[1] == 111);
                    assert(name[2] == 99);
                    assert(name[3] == 97);
                    assert(name[4] == 108);
                    assert(name[5] == 86);
                    assert(name[6] == 97);
                    assert(name[7] == 114);
                    assert(name[8] == 105);
                    assert(name[9] == 97);
                    assert(name[10] == 98);
                    assert(name[11] == 108);
                    assert(name[12] == 101);
                    assert(name[13] == 84);
                    assert(name[14] == 121);
                    assert(name[15] == 112);
                    assert(name[16] == 101);
                    assert(name[17] == 84);
                    assert(name[18] == 97);
                    assert(name[19] == 98);
                    assert(name[20] == 108);
                    assert(name[21] == 101);
                }
            }
            r
        },
        AttrKind::Deprecated => {
            let r = n.len() == 10 && n[0] == 68 && n[1] == 101 && n[2] == 112 && n[3] == 114
                && n[4] == 101 && n[5] == 99 && n[6] == 97 && n[7] == 116 && n[8] == 101
                && n[9] == 100;
            proof {
                let name = name_of(AttrKind::Deprecated);
                if r {
                    assert(n@ =~= name);
                } else if n@.len() == 10 {
                    assert(name[0] == 68);
                    assert(name[1] == 101);
                    assert(name[2] == 112);
                    assert(name[3] == 114);
                    assert(name[4] == 101);
                    assert(name[5] == 99);
                    assert(name[6] == 97);
                    assert(name[7] == 116);
                    assert(name[8] == 101);
                    assert(name[9] == 100);
                }
            }
            r
        },
        AttrKind::BootstrapMethods => {
            let r = n.len() == 16 && n[0] == 66 && n[1] == 111 && n[2] == 111 && n[3] == 116
                && n[4] == 115 && n[5] == 116 && n[6] == 114 && n[7] == 97 && n[8] == 112
                && n[9] == 77 && n[10] == 101 && n[11] == 116 && n[12] == 104 && n[13] == 111
                && n[14] == 100 && n[15] == 115;
            proof {
                let name = name_of(AttrKind::BootstrapMethods);
                if r {
                    assert(n@ =~= name);
                } else if n@.len() == 16 {
                    assert(name[0] == 66);
                    assert(name[1] == 111);
                    assert(name[2] == 111);
                    assert(name[3] == 116);
                    assert(name[4] == 115);
                    assert(name[5] == 116);
                    assert(name[6] == 114);
                    assert(name[7] == 97);
                    assert(name[8] == 112);
                    assert(name[9] == 77);
                    assert(name[10] == 101);
                    assert(name[11] == 116);
                    assert(name[12] == 104);
                    assert(name[13] == 111);
                    assert(name[14] == 100);
                    assert(name[15] == 115);
                }
            }
            r
        },
        AttrKind::MethodParameters => {
            let r = n.len() == 16 && n[0] == 77 && n[1] == 101 && n[2] == 116 && n[3] == 104
                && n[4] == 111 && n[5] == 100 && n[6] == 80 && n[7] == 97 && n[8] == 114
                && n[9] == 97 && n[10] == 109 && n[11] == 101 && n[12] == 116 && n[13] == 101
                && n[14] == 114 && n[15] == 115;
            proof {
                let name = name_of(AttrKind::MethodParameters);
                if r {
                    assert(n@ =~= name);
                } else if n@.len() == 16 {
                    assert(name[0] == 77);
                    assert(name[1] == 101);
                    assert(name[2] == 116);
                    assert(name[3] == 104);
                    assert(name[4] == 111);
                    assert(name[5] == 100);
                    assert(name[6] == 80);
                    assert(name[7] == 97);
                    assert(name[8] == 114);
                    assert(name[9] == 97);
                    assert(name[10] == 109);
                    assert(name[11] == 101);
                    assert(name[12] == 116);
                    assert(name[13] == 101);
                    assert(name[14] == 114);
                    assert(name[15] == 115);
                }
            }
            r
        },
    }
}

/// The kind that bears the name `n`, if one does.
pub fn kind_of(n: &Vec<u8>) -> (r: Option<AttrKind>)
    ensures
        r == kind_of_name(n@),
{
    reveal(kind_of_name);
    if is_name(n, AttrKind::ConstantValue) {
        Some(AttrKind::ConstantValue)
    } else if is_name(n, AttrKind::Code) {
        Some(AttrKind::Code)
    } else if is_name(n, AttrKind::Exceptions) {
        Some(AttrKind::Exceptions)
    } else if is_name(n, AttrKind::InnerClasses) {
        Some(AttrKind::InnerClasses)
    } else if is_name(n, AttrKind::EnclosingMethod) {
        Some(AttrKind::EnclosingMethod)
    } else if is_name(n, AttrKind::Synthetic) {
        Some(AttrKind::Synthetic)
    } else if is_name(n, AttrKind::Signature) {
        Some(AttrKind::Signature)
    } else if is_name(n, AttrKind::SourceFile) {
        Some(AttrKind::SourceFile)
    } else if is_name(n, AttrKind::SourceDebugExtension) {
        Some(AttrKind::SourceDebugExtension)
    } else if is_name(n, AttrKind::LineNumberTable) {
        Some(AttrKind::LineNumberTable)
    } else if is_name(n, AttrKind::LocalVariableTable) {
        Some(AttrKind::LocalVariableTable)
    } else if is_name(n, AttrKind::LocalVariableTypeTable) {
        Some(AttrKind::LocalVariableTypeTable)
    } else if is_name(n, AttrKind::Deprecated) {
        Some(AttrKind::Deprecated)
    } else if is_name(n, AttrKind::BootstrapMethods) {
        Some(AttrKind::BootstrapMethods)
    } else if is_name(n, AttrKind::MethodParameters) {
        Some(AttrKind::MethodParameters)
    } else {
        None
    }
}

/// Every kind is the kind of its own name.
pub proof fn lemma_kind_of_own_name(kind: AttrKind)
    ensures
        kind_of_name(name_of(kind)) == Some(kind),
{
    reveal(kind_of_name);
    let n_constantvalue = name_of(AttrKind::ConstantValue);
    let n_code = name_of(AttrKind::Code);
    let n_exceptions = name_of(AttrKind::Exceptions);
    let n_innerclasses = name_of(AttrKind::InnerClasses);
    let n_enclosingmethod = name_of(AttrKind::EnclosingMethod);
    let n_synthetic = name_of(AttrKind::Synthetic);
    let n_signature = name_of(AttrKind::Signature);
    let n_sourcefile = name_of(AttrKind::SourceFile);
    let n_sourcedebugextension = name_of(AttrKind::SourceDebugExtension);
    let n_linenumbertable = name_of(AttrKind::LineNumberTable);
    let n_localvariabletable = name_of(AttrKind::LocalVariableTable);
    let n_localvariabletypetable = name_of(AttrKind::LocalVariableTypeTable);
    let n_deprecated = name_of(AttrKind::Deprecated);
    let n_bootstrapmethods = name_of(AttrKind::BootstrapMethods);
    let n_methodparameters = name_of(AttrKind::MethodParameters);
    assert(n_constantvalue.len() == 13);
    assert(n_code.len() == 4);
    assert(n_exceptions.len() == 10);
    assert(n_innerclasses.len() == 12);
    assert(n_enclosingmethod.len() == 15);
    assert(n_synthetic.len() == 9);
    assert(n_signature.len() == 9);
    assert(n_sourcefile.len() == 10);
    assert(n_sourcedebugextension.len() == 20);
    assert(n_linenumbertable.len() == 15);
    assert(n_localvariabletable.len() == 18);
    assert(n_localvariabletypetable.len() == 22);
    assert(n_deprecated.len() == 10);
    assert(n_bootstrapmethods.len() == 16);
    assert(n_methodparameters.len() == 16);
    assert(n_exceptions[0] != n_sourcefile[0]);
    assert(n_exceptions[0] != n_deprecated[0]);
    assert(n_enclosingmethod[0] != n_linenumbertable[0]);
    assert(n_synthetic[1] != n_signature[1]);
    assert(n_sourcefile[0] != n_deprecated[0]);
    assert(n_bootstrapmethods[0] != n_methodparameters[0]);
}

/// The kind named by the `Utf8` constant of slot `slot`, if that constant
/// is there and bears the name of a kind. Slot `j` stands at position
/// `j - 1` of the pool, and slot 0 is never an entry.
pub open spec fn kind_at(pool: Seq<ConstantView>, slot: int) -> Option<AttrKind> {
    match utf8_at(pool, slot - 1) {
        Some(name) => kind_of_name(name),
        None => None,
    }
}

/// The constant `c` holds the name of the attributes of kind `kind`.
pub open spec fn holds_name(c: ConstantView, kind: AttrKind) -> bool {
    c matches ConstantView::Utf8(name) && kind_of_name(name) == Some(kind)
}

/// The first position from `i` on at which the pool holds the name of
/// `kind`.
pub open spec fn find_name(pool: Seq<ConstantView>, kind: AttrKind, i: int) -> Option<int>
    decreases pool.len() - i,
{
    if i < 0 || i >= pool.len() {
        None
    } else if holds_name(pool[i], kind) {
        Some(i)
    } else {
        find_name(pool, kind, i + 1)
    }
}

/// The kind of a variant that is read by its name.
pub open spec fn kind_of_attr(a: AttributeView) -> Option<AttrKind> {
    match a {
        AttributeView::ConstantValue(_) => Some(AttrKind::ConstantValue),
        AttributeView::Code { .. } => Some(AttrKind::Code),
        AttributeView::Exceptions(_) => Some(AttrKind::Exceptions),
        AttributeView::InnerClass(_) => Some(AttrKind::InnerClasses),
        AttributeView::EnclosingMethod { .. } => Some(AttrKind::EnclosingMethod),
        AttributeView::Synthetic => Some(AttrKind::Synthetic),
        AttributeView::Signature(_) => Some(AttrKind::Signature),
        AttributeView::SourceFile(_) => Some(AttrKind::SourceFile),
        AttributeView::SourceDebugExtension(_) => Some(AttrKind::SourceDebugExtension),
        AttributeView::LineNumbeTable(_) => Some(AttrKind::LineNumberTable),
        AttributeView::LocalVariableTable(_) => Some(AttrKind::LocalVariableTable),
        AttributeView::LocalVariableTableType(_) => Some(AttrKind::LocalVariableTypeTable),
        AttributeView::Deprecated => Some(AttrKind::Deprecated),
        AttributeView::BootstrapMethods(_) => Some(AttrKind::BootstrapMethods),
        AttributeView::MethodParameters(_) => Some(AttrKind::MethodParameters),
        _ => None,
    }
}

/// The index of a name, the length of the payload and the payload.
pub open spec fn framed(name: u16, payload: Result<Seq<u8>, Flaw>) -> Result<Seq<u8>, Flaw> {
    match payload {
        Err(e) => Err(e),
        Ok(p) => if p.len() <= 0xFFFF_FFFF {
            Ok(be16(name) + be32(p.len() as u32) + p)
        } else {
            Err(Flaw::LengthOutOfRange)
        },
    }
}

/// The length of a code array and its bytes.
pub open spec fn enc_code_block(code: Seq<Insn>) -> Result<Seq<u8>, Flaw> {
    match enc_code(code, 0) {
        Err(e) => Err(e),
        Ok(c) => if c.len() <= 0xFFFF_FFFF {
            Ok(be32(c.len() as u32) + c)
        } else {
            Err(Flaw::LengthOutOfRange)
        },
    }
}

/// The payload of an attribute that is read by its name and holds no
/// attributes of its own.
#[verifier::opaque]
pub open spec fn enc_simple(a: AttributeView) -> Result<Seq<u8>, Flaw> {
    match a {
        AttributeView::ConstantValue(i) => enc_index(i),
        AttributeView::Signature(i) => enc_index(i),
        AttributeView::SourceFile(i) => enc_index(i),
        AttributeView::Exceptions(v) => enc_counted(v),
        AttributeView::InnerClass(v) => enc_counted(v),
        AttributeView::EnclosingMethod { class_index, method_index } => then(
            enc_index(class_index),
            enc_index(method_index),
        ),
        AttributeView::Synthetic => Ok(Seq::empty()),
        AttributeView::Deprecated => Ok(Seq::empty()),
        AttributeView::SourceDebugExtension(bytes) => Ok(bytes),
        AttributeView::LineNumbeTable(v) => enc_counted(v),
        AttributeView::LocalVariableTable(v) => enc_counted(v),
        AttributeView::LocalVariableTableType(v) => enc_counted(v),
        AttributeView::BootstrapMethods(v) => enc_counted(v),
        AttributeView::MethodParameters(v) => enc_counted8(v),
        _ => Err(Flaw::UnsupportedAttribute),
    }
}

/// The payload of an attribute that is read by its name. That of `Code`
/// is the two limits, the code array with its length, the exception table
/// and the attributes of the code.
pub open spec fn enc_payload(pool: Seq<ConstantView>, a: AttributeView) -> Result<Seq<u8>, Flaw>
    decreases a, 0int,
{
    match a {
        AttributeView::Code { max_stack, max_locals, code, exception_table, attributes } => then(
            Ok(be16(max_stack) + be16(max_locals)),
            then(
                enc_code_block(code),
                then(enc_counted(exception_table), enc_attrs(pool, attributes)),
            ),
        ),
        _ => enc_simple(a),
    }
}

/// The bytes of one attribute. The name of a variant is written as the
/// slot of the first constant of the pool that holds it.
pub open spec fn enc_attr(pool: Seq<ConstantView>, a: AttributeView) -> Result<Seq<u8>, Flaw>
    decreases a, 1int,
{
    match a {
        AttributeView::RawAttribute { name_index, info } => if name_index.idx > 0xFFFF {
            Err(Flaw::IndexOutOfRange)
        } else if kind_at(pool, name_index.idx as int) is Some {
            Err(Flaw::StructuredName)
        } else {
            framed(name_index.idx as u16, Ok(info))
        },
        _ => match kind_of_attr(a) {
            None => Err(Flaw::UnsupportedAttribute),
            Some(kind) => match find_name(pool, kind, 0) {
                None => Err(Flaw::MissingName),
                Some(i) => if i + 1 <= 0xFFFF {
                    framed((i + 1) as u16, enc_payload(pool, a))
                } else {
                    Err(Flaw::IndexOutOfRange)
                },
            },
        },
    }
}

/// The bytes of the attributes of `attrs` from position `i` on.
pub open spec fn enc_attr_list(pool: Seq<ConstantView>, attrs: Seq<AttributeView>, i: int) -> Result<
    Seq<u8>,
    Flaw,
>
    decreases attrs, attrs.len() - i,
{
    if i < 0 || i >= attrs.len() {
        Ok(Seq::empty())
    } else {
        then(enc_attr(pool, attrs[i]), enc_attr_list(pool, attrs, i + 1))
    }
}

/// A sixteen-bit count and as many attributes.
pub open spec fn enc_attrs(pool: Seq<ConstantView>, attrs: Seq<AttributeView>) -> Result<Seq<u8>, Flaw>
    decreases attrs, attrs.len() + 1,
{
    if attrs.len() <= 0xFFFF {
        then(Ok(be16(attrs.len() as u16)), enc_attr_list(pool, attrs, 0))
    } else {
        Err(Flaw::CountOutOfRange)
    }
}

/// The payload of an attribute of kind `kind` that holds no attributes
/// of its own, which fills the region from `pos` to `end`. The position
/// returned is where the reader stopped.
#[verifier::opaque]
pub open spec fn dec_simple(kind: AttrKind, s: Seq<u8>, pos: int, end: int) -> Result<
    (AttributeView, int),
    Fault,
> {
    match kind {
        AttrKind::ConstantValue => match dec_index(s, pos, end) {
            Err(e) => Err(e),
            Ok((i, p)) => Ok((AttributeView::ConstantValue(i), p)),
        },
        AttrKind::Signature => match dec_index(s, pos, end) {
            Err(e) => Err(e),
            Ok((i, p)) => Ok((AttributeView::Signature(i), p)),
        },
        AttrKind::SourceFile => match dec_index(s, pos, end) {
            Err(e) => Err(e),
            Ok((i, p)) => Ok((AttributeView::SourceFile(i), p)),
        },
        AttrKind::Exceptions => match dec_counted::<ConstantPoolIndex>(s, pos, end) {
            Err(e) => Err(e),
            Ok((v, p)) => Ok((AttributeView::Exceptions(v), p)),
        },
        AttrKind::InnerClasses => match dec_counted::<InnerClass>(s, pos, end) {
            Err(e) => Err(e),
            Ok((v, p)) => Ok((AttributeView::InnerClass(v), p)),
        },
        AttrKind::EnclosingMethod => match dec_index_pair(s, pos, end) {
            Err(e) => Err(e),
            Ok(((class_index, method_index), p)) => Ok(
                (AttributeView::EnclosingMethod { class_index, method_index }, p),
            ),
        },
        // `Code` holds attributes of its own and is not read here.
        AttrKind::Code => Err(fault(FaultKind::LengthMismatch, pos)),
        AttrKind::Synthetic => Ok((AttributeView::Synthetic, pos)),
        AttrKind::Deprecated => Ok((AttributeView::Deprecated, pos)),
        AttrKind::SourceDebugExtension => Ok(
            (AttributeView::SourceDebugExtension(s.subrange(pos, end)), end),
        ),
        AttrKind::LineNumberTable => match dec_counted::<LineNumberTable>(s, pos, end) {
            Err(e) => Err(e),
            Ok((v, p)) => Ok((AttributeView::LineNumbeTable(v), p)),
        },
        AttrKind::LocalVariableTable => match dec_counted::<LocalVariableTable>(s, pos, end) {
            Err(e) => Err(e),
            Ok((v, p)) => Ok((AttributeView::LocalVariableTable(v), p)),
        },
        AttrKind::LocalVariableTypeTable => match dec_counted::<LocalVariableTableType>(s, pos, end) {
            Err(e) => Err(e),
            Ok((v, p)) => Ok((AttributeView::LocalVariableTableType(v), p)),
        },
        AttrKind::BootstrapMethods => match dec_counted::<BootstrapMethodView>(s, pos, end) {
            Err(e) => Err(e),
            Ok((v, p)) => Ok((AttributeView::BootstrapMethods(v), p)),
        },
        AttrKind::MethodParameters => match dec_counted8::<MethodParameter>(s, pos, end) {
            Err(e) => Err(e),
            Ok((v, p)) => Ok((AttributeView::MethodParameters(v), p)),
        },
    }
}

/// The payload of an attribute of kind `kind`, which fills the region
/// from `pos` to `end`. The position returned is where the reader
/// stopped.
pub open spec fn dec_payload(pool: Seq<ConstantView>, kind: AttrKind, s: Seq<u8>, pos: int, end: int) -> Result<
    (AttributeView, int),
    Fault,
>
    decreases end - pos, 0int,
{
    if kind == AttrKind::Code {
        if pos + 8 <= end {
            let max_stack = word16(s, pos);
            let max_locals = word16(s, pos + 2);
            let code_length = word32(s, pos + 4);
            let code_end = pos + 8 + code_length;
            if code_end > end {
                Err(truncated(pos + 8))
            } else {
                match dec_code(s, pos + 8, code_end, pos + 8) {
                    Err(e) => Err(e),
                    Ok((code, _)) => match dec_counted::<ExceptionHandler>(s, code_end, end) {
                        Err(e) => Err(e),
                        // The table ends after it starts and in the region, so
                        // this branch is never taken.
                        Ok((exception_table, t)) => if t < code_end || t > end {
                            Err(fault(FaultKind::LengthMismatch, pos))
                        } else {
                            match dec_attrs(pool, s, t, end) {
                                Err(e) => Err(e),
                                Ok((attributes, u)) => Ok(
                                    (
                                        AttributeView::Code {
                                            max_stack,
                                            max_locals,
                                            code,
                                            exception_table,
                                            attributes,
                                        },
                                        u,
                                    ),
                                ),
                            }
                        },
                    },
                }
            }
        } else {
            Err(truncated(pos))
        }
    } else {
        dec_simple(kind, s, pos, end)
    }
}

/// The attribute that starts at `pos`. The payload of an attribute that is
/// read by its name has to be read to its last byte and no further.
pub open spec fn dec_attr(pool: Seq<ConstantView>, s: Seq<u8>, pos: int, end: int) -> Result<
    (AttributeView, int),
    Fault,
>
    decreases end - pos, 1int,
{
    if pos + 6 <= end {
        let name = word16(s, pos);
        let length = word32(s, pos + 2);
        let start = pos + 6;
        let stop = start + length;
        if stop > end {
            Err(truncated(start))
        } else {
            match kind_at(pool, name as int) {
                None => Ok(
                    (
                        AttributeView::RawAttribute {
                            name_index: ConstantPoolIndex { idx: name as usize },
                            info: s.subrange(start, stop),
                        },
                        stop,
                    ),
                ),
                Some(kind) => match dec_payload(pool, kind, s, start, stop) {
                    Err(e) => Err(e),
                    Ok((a, p)) => if p == stop {
                        Ok((a, stop))
                    } else {
                        Err(fault(FaultKind::LengthMismatch, start))
                    },
                },
            }
        }
    } else {
        Err(truncated(pos))
    }
}

/// The `n` attributes that start at `pos`.
pub open spec fn dec_attr_list(pool: Seq<ConstantView>, s: Seq<u8>, pos: int, end: int, n: int) -> Result<
    (Seq<AttributeView>, int),
    Fault,
>
    decreases end - pos, n + 2,
{
    if n <= 0 {
        Ok((Seq::empty(), pos))
    } else {
        match dec_attr(pool, s, pos, end) {
            Err(e) => Err(e),
            // An attribute takes six bytes at least and stays in the
            // region, so this branch is never taken.
            Ok((a, p)) => if p <= pos || p > end {
                Err(fault(FaultKind::LengthMismatch, pos))
            } else {
                prepend(seq![a], dec_attr_list(pool, s, p, end, n - 1))
            },
        }
    }
}

/// A sixteen-bit count and as many attributes.
pub open spec fn dec_attrs(pool: Seq<ConstantView>, s: Seq<u8>, pos: int, end: int) -> Result<
    (Seq<AttributeView>, int),
    Fault,
>
    decreases end - pos, 0int,
{
    if pos + 2 <= end {
        dec_attr_list(pool, s, pos + 2, end, word16(s, pos) as int)
    } else {
        Err(truncated(pos))
    }
}

/// The kind named by the `Utf8` constant of slot `slot`.
pub fn kind_at_slot(pool: &ConstantPool, slot: u16) -> (r: Option<AttrKind>)
    ensures
        r == kind_at(pool@, slot as int),
{
    if slot == 0 {
        return None;
    }
    match pool.get_utf8(slot - 1) {
        Some(name) => kind_of(name),
        None => None,
    }
}

/// Reads the payload of an attribute of kind `kind` that holds no
/// attributes of its own, which fills the region from `pos` to `end`.
pub fn read_simple(kind: AttrKind, b: &[u8], pos: usize, end: usize) -> (r: Result<
    (Attribute, usize),
    Fault,
>)
    requires
        in_region(b@, pos as int, end as int),
    ensures
        agrees(r, dec_simple(kind, b@, pos as int, end as int), pos, end),
{
    reveal(dec_simple);
    match kind {
        AttrKind::ConstantValue => {
            let (i, p) = read_index(b, pos, end)?;
            Ok((Attribute::ConstantValue(i), p))
        },
        AttrKind::Signature => {
            let (i, p) = read_index(b, pos, end)?;
            Ok((Attribute::Signature(i), p))
        },
        AttrKind::SourceFile => {
            let (i, p) = read_index(b, pos, end)?;
            Ok((Attribute::SourceFile(i), p))
        },
        // `Code` holds attributes of its own and is not read here.
        AttrKind::Code => Err(Fault { kind: FaultKind::LengthMismatch, offset: pos }),
        AttrKind::Exceptions => {
            let (v, p) = read_counted::<ConstantPoolIndex>(b, pos, end)?;
            Ok((Attribute::Exceptions(v), p))
        },
        AttrKind::InnerClasses => {
            let (v, p) = read_counted::<InnerClass>(b, pos, end)?;
            Ok((Attribute::InnerClass(v), p))
        },
        AttrKind::EnclosingMethod => {
            let ((class_index, method_index), p) = read_index_pair(b, pos, end)?;
            Ok((Attribute::EnclosingMethod { class_index, method_index }, p))
        },
        AttrKind::Synthetic => Ok((Attribute::Synthetic, pos)),
        AttrKind::Deprecated => Ok((Attribute::Deprecated, pos)),
        AttrKind::SourceDebugExtension => {
            let (bytes, p) = get_bytes(b, pos, end, end - pos)?;
            Ok((Attribute::SourceDebugExtension(bytes), p))
        },
        AttrKind::LineNumberTable => {
            let (v, p) = read_counted::<LineNumberTable>(b, pos, end)?;
            Ok((Attribute::LineNumbeTable(v), p))
        },
        AttrKind::LocalVariableTable => {
            let (v, p) = read_counted::<LocalVariableTable>(b, pos, end)?;
            Ok((Attribute::LocalVariableTable(v), p))
        },
        AttrKind::LocalVariableTypeTable => {
            let (v, p) = read_counted::<LocalVariableTableType>(b, pos, end)?;
            Ok((Attribute::LocalVariableTableType(v), p))
        },
        AttrKind::BootstrapMethods => {
            let (v, p) = read_bootstrap_methods(b, pos, end)?;
            Ok((Attribute::BootstrapMethods(v), p))
        },
        AttrKind::MethodParameters => {
            let (v, p) = read_counted8::<MethodParameter>(b, pos, end)?;
            Ok((Attribute::MethodParameters(v), p))
        },
    }
}

/// Reads the payload of an attribute of kind `kind`, which fills the
/// region from `pos` to `end`.
pub fn read_payload(pool: &ConstantPool, kind: AttrKind, b: &[u8], pos: usize, end: usize) -> (r:
    Result<(Attribute, usize), Fault>)
    requires
        in_region(b@, pos as int, end as int),
    ensures
        agrees(r, dec_payload(pool@, kind, b@, pos as int, end as int), pos, end),
    decreases end - pos, 0int,
{
    match kind {
        AttrKind::Code => {
            if end - pos < 8 {
                return Err(Fault { kind: FaultKind::Truncated, offset: pos });
            }
            let max_stack = peek_u16(b, pos);
            let max_locals = peek_u16(b, pos + 2);
            let (code_length, start) = get_u32(b, pos + 4, end)?;
            if end - start < code_length as usize {
                return Err(Fault { kind: FaultKind::Truncated, offset: start });
            }
            let code_end: usize = start + code_length as usize;
            let (code, _) = read_code(b, start, code_end)?;
            let (exception_table, t) = read_counted::<ExceptionHandler>(b, code_end, end)?;
            let (attributes, u) = read_attrs(pool, b, t, end)?;
            let a = Attribute::Code { max_stack, max_locals, code, exception_table, attributes };
            proof {
                lemma_code_attributes_view(a);
            }
            Ok((a, u))
        },
        _ => read_simple(kind, b, pos, end),
    }
}

/// Reads the attribute that starts at `pos`.
pub fn read_attr(pool: &ConstantPool, b: &[u8], pos: usize, end: usize) -> (r: Result<
    (Attribute, usize),
    Fault,
>)
    requires
        in_region(b@, pos as int, end as int),
    ensures
        agrees(r, dec_attr(pool@, b@, pos as int, end as int), pos, end),
        r matches Ok((_, p)) ==> p > pos,
    decreases end - pos, 1int,
{
    if end - pos < 6 {
        return Err(Fault { kind: FaultKind::Truncated, offset: pos });
    }
    let name = peek_u16(b, pos);
    let (length, start) = get_u32(b, pos + 2, end)?;
    if end - start < length as usize {
        return Err(Fault { kind: FaultKind::Truncated, offset: start });
    }
    let stop: usize = start + length as usize;
    match kind_at_slot(pool, name) {
        None => {
            let (info, p) = get_bytes(b, start, stop, length as usize)?;
            Ok((Attribute::RawAttribute { name_index: ConstantPoolIndex { idx: name as usize }, info }, stop))
        },
        Some(kind) => {
            let (a, p) = read_payload(pool, kind, b, start, stop)?;
            if p == stop {
                Ok((a, stop))
            } else {
                Err(Fault { kind: FaultKind::LengthMismatch, offset: start })
            }
        },
    }
}

/// Reads the `n` attributes that start at `pos`.
pub fn read_attr_list(pool: &ConstantPool, b: &[u8], pos: usize, end: usize, n: u16) -> (r: Result<
    (Vec<Attribute>, usize),
    Fault,
>)
    requires
        in_region(b@, pos as int, end as int),
    ensures
        agrees_with(
            r,
            |v: Vec<Attribute>| attrs_view(v@),
            dec_attr_list(pool@, b@, pos as int, end as int, n as int),
            pos,
            end,
        ),
    decreases end - pos, n + 2,
{
    let mut v: Vec<Attribute> = Vec::new();
    let mut p: usize = pos;
    let mut i: u16 = 0;
    assert(attrs_view(v@) =~= Seq::empty());
    while i < n
        invariant
            i <= n,
            pos <= p,
            in_region(b@, p as int, end as int),
            dec_attr_list(pool@, b@, pos as int, end as int, n as int) == prepend(
                attrs_view(v@),
                dec_attr_list(pool@, b@, p as int, end as int, n - i),
            ),
        decreases n - i,
    {
        let ghost before = attrs_view(v@);
        let (x, q) = read_attr(pool, b, p, end)?;
        let ghost xv = x@;
        v.push(x);
        proof {
            assert(attrs_view(v@) =~= before + seq![xv]);
            if let Ok((tail, _)) = dec_attr_list(pool@, b@, q as int, end as int, n - i - 1) {
                assert(before + (seq![xv] + tail) =~= attrs_view(v@) + tail);
            }
        }
        p = q;
        i = i + 1;
    }
    proof {
        assert(attrs_view(v@) + Seq::<AttributeView>::empty() =~= attrs_view(v@));
    }
    Ok((v, p))
}

/// Reads a sixteen-bit count and as many attributes.
pub fn read_attrs(pool: &ConstantPool, b: &[u8], pos: usize, end: usize) -> (r: Result<
    (Vec<Attribute>, usize),
    Fault,
>)
    requires
        in_region(b@, pos as int, end as int),
    ensures
        agrees_with(
            r,
            |v: Vec<Attribute>| attrs_view(v@),
            dec_attrs(pool@, b@, pos as int, end as int),
            pos,
            end,
        ),
    decreases end - pos, 0int,
{
    if end - pos < 2 {
        return Err(Fault { kind: FaultKind::Truncated, offset: pos });
    }
    let n = peek_u16(b, pos);
    read_attr_list(pool, b, pos + 2, end, n)
}

/// The kind of a variant that is written under its name.
pub fn kind_of_variant(a: &Attribute) -> (r: Option<AttrKind>)
    ensures
        r == kind_of_attr(a@),
{
    match a {
        Attribute::ConstantValue(_) => Some(AttrKind::ConstantValue),
        Attribute::Code { .. } => Some(AttrKind::Code),
        Attribute::Exceptions(_) => Some(AttrKind::Exceptions),
        Attribute::InnerClass(_) => Some(AttrKind::InnerClasses),
        Attribute::EnclosingMethod { .. } => Some(AttrKind::EnclosingMethod),
        Attribute::Synthetic => Some(AttrKind::Synthetic),
        Attribute::Signature(_) => Some(AttrKind::Signature),
        Attribute::SourceFile(_) => Some(AttrKind::SourceFile),
        Attribute::SourceDebugExtension(_) => Some(AttrKind::SourceDebugExtension),
        Attribute::LineNumbeTable(_) => Some(AttrKind::LineNumberTable),
        Attribute::LocalVariableTable(_) => Some(AttrKind::LocalVariableTable),
        Attribute::LocalVariableTableType(_) => Some(AttrKind::LocalVariableTypeTable),
        Attribute::Deprecated => Some(AttrKind::Deprecated),
        Attribute::BootstrapMethods(_) => Some(AttrKind::BootstrapMethods),
        Attribute::MethodParameters(_) => Some(AttrKind::MethodParameters),
        _ => None,
    }
}

/// The first position at which the pool holds the name of `kind`.
pub fn find_position(pool: &ConstantPool, kind: AttrKind) -> (r: Option<usize>)
    ensures
        match r {
            Some(i) => find_name(pool@, kind, 0) == Some(i as int),
            None => find_name(pool@, kind, 0) is None,
        },
{
    let mut i: usize = 0;
    while i < pool.constants.len()
        invariant
            i <= pool.constants.len(),
            find_name(pool@, kind, 0) == find_name(pool@, kind, i as int),
        decreases pool.constants.len() - i,
    {
        assert(pool@[i as int] == pool.constants@[i as int]@);
        match &pool.constants[i] {
            Constant::Utf8(name) => {
                match kind_of(name) {
                    Some(k) => {
                        if k == kind {
                            return Some(i);
                        }
                    },
                    None => {},
                }
            },
            _ => {},
        }
        i = i + 1;
    }
    None
}

/// Appends the payload of a `Code` attribute. The code array is written to
/// a buffer of its own first, and its length is taken from there.
pub fn write_code_payload(out: &mut Vec<u8>, pool: &ConstantPool, a: &Attribute) -> (r: Result<
    (),
    Flaw,
>)
    requires
        a is Code,
    ensures
        appended(r, enc_payload(pool@, a@), old(out)@, final(out)@),
    decreases a, 0int,
{
    let ghost start = out@;
    match a {
        Attribute::Code { max_stack, max_locals, code, exception_table, attributes } => {
            proof {
                lemma_code_attributes_view(*a);
            }
            let ghost spec_code = enc_code_block(code_view(code@));
            let ghost spec_table = enc_counted(exception_table@);
            let ghost spec_nested = enc_attrs(pool@, attrs_view(attributes@));
            let ghost head = be16(*max_stack) + be16(*max_locals);
            assert(enc_payload(pool@, a@) == then(
                Ok(head),
                then(spec_code, then(spec_table, spec_nested)),
            ));
            let mut block: Vec<u8> = Vec::new();
            write_code(&mut block, code)?;
            if block.len() > 0xFFFF_FFFF {
                return Err(Flaw::LengthOutOfRange);
            }
            put_u16(out, *max_stack);
            put_u16(out, *max_locals);
            put_u32(out, block.len() as u32);
            let ghost code_bytes = block@;
            assert(Seq::<u8>::empty() + code_bytes =~= code_bytes);
            out.append(&mut block);
            let ghost body = be32(code_bytes.len() as u32) + code_bytes;
            assert(spec_code == Ok::<Seq<u8>, Flaw>(body));
            assert(out@ =~= start + head + body);
            write_counted(out, exception_table)?;
            let ghost table = spec_table->Ok_0;
            assert(out@ == start + head + body + table);
            write_attrs(out, pool, attributes)?;
            proof {
                let nested = spec_nested->Ok_0;
                assert(start + head + body + table + nested =~= start + (head + (body + (table
                    + nested))));
            }
            Ok(())
        },
        _ => Err(Flaw::UnsupportedAttribute),
    }
}

/// Appends the payload of an attribute that is written under its name
/// and holds no attributes of its own.
pub fn write_simple(out: &mut Vec<u8>, a: &Attribute) -> (r: Result<(), Flaw>)
    ensures
        appended(r, enc_simple(a@), old(out)@, final(out)@),
{
    reveal(enc_simple);
    let ghost start = out@;
    match a {
        Attribute::ConstantValue(i) => write_index(out, i),
        Attribute::Signature(i) => write_index(out, i),
        Attribute::SourceFile(i) => write_index(out, i),
        Attribute::Exceptions(v) => write_counted(out, v),
        Attribute::InnerClass(v) => write_counted(out, v),
        Attribute::EnclosingMethod { class_index, method_index } => write_index_pair(
            out,
            class_index,
            method_index,
        ),
        Attribute::Synthetic => {
            assert(out@ =~= start + Seq::<u8>::empty());
            Ok(())
        },
        Attribute::Deprecated => {
            assert(out@ =~= start + Seq::<u8>::empty());
            Ok(())
        },
        Attribute::SourceDebugExtension(bytes) => {
            put_bytes(out, bytes);
            Ok(())
        },
        Attribute::LineNumbeTable(v) => write_counted(out, v),
        Attribute::LocalVariableTable(v) => write_counted(out, v),
        Attribute::LocalVariableTableType(v) => write_counted(out, v),
        Attribute::BootstrapMethods(v) => write_bootstrap_methods(out, v),
        Attribute::MethodParameters(v) => write_counted8(out, v),
        _ => Err(Flaw::UnsupportedAttribute),
    }
}

/// Appends the payload of an attribute that is written under its name.
pub fn write_payload(out: &mut Vec<u8>, pool: &ConstantPool, a: &Attribute) -> (r: Result<(), Flaw>)
    ensures
        appended(r, enc_payload(pool@, a@), old(out)@, final(out)@),
    decreases a, 1int,
{
    match a {
        Attribute::Code { .. } => write_code_payload(out, pool, a),
        _ => write_simple(out, a),
    }
}

/// Appends the bytes of one attribute. The payload is written to a buffer
/// of its own first, and its length is taken from there.
pub fn write_attr(out: &mut Vec<u8>, pool: &ConstantPool, a: &Attribute) -> (r: Result<(), Flaw>)
    ensures
        appended(r, enc_attr(pool@, a@), old(out)@, final(out)@),
    decreases a, 2int,
{
    let ghost start = out@;
    match a {
        Attribute::RawAttribute { name_index, info } => {
            if name_index.idx > 0xFFFF {
                return Err(Flaw::IndexOutOfRange);
            }
            let name: u16 = name_index.idx as u16;
            if kind_at_slot(pool, name).is_some() {
                return Err(Flaw::StructuredName);
            }
            if info.len() > 0xFFFF_FFFF {
                return Err(Flaw::LengthOutOfRange);
            }
            put_u16(out, name);
            put_u32(out, info.len() as u32);
            put_bytes(out, info);
            assert(out@ =~= start + (be16(name) + be32(info@.len() as u32) + info@));
            Ok(())
        },
        _ => {
            let kind = match kind_of_variant(a) {
                Some(kind) => kind,
                None => {
                    return Err(Flaw::UnsupportedAttribute);
                },
            };
            let i = match find_position(pool, kind) {
                Some(i) => i,
                None => {
                    return Err(Flaw::MissingName);
                },
            };
            if i >= 0xFFFF {
                return Err(Flaw::IndexOutOfRange);
            }
            let mut payload: Vec<u8> = Vec::new();
            write_payload(&mut payload, pool, a)?;
            if payload.len() > 0xFFFF_FFFF {
                return Err(Flaw::LengthOutOfRange);
            }
            let name: u16 = (i + 1) as u16;
            let ghost bytes = payload@;
            assert(Seq::<u8>::empty() + bytes =~= bytes);
            put_u16(out, name);
            put_u32(out, payload.len() as u32);
            out.append(&mut payload);
            assert(out@ =~= start + (be16(name) + be32(bytes.len() as u32) + bytes));
            Ok(())
        },
    }
}

/// After the attributes before `i`, whose bytes are `acc`, the one at `i`
/// has the encoding given.
proof fn lemma_enc_attr_list_step(
    pool: Seq<ConstantView>,
    attrs: Seq<AttributeView>,
    i: int,
    acc: Seq<u8>,
)
    requires
        0 <= i < attrs.len(),
        enc_attr_list(pool, attrs, 0) == then(Ok(acc), enc_attr_list(pool, attrs, i)),
    ensures
        match enc_attr(pool, attrs[i]) {
            Ok(bytes) => enc_attr_list(pool, attrs, 0) == then(
                Ok(acc + bytes),
                enc_attr_list(pool, attrs, i + 1),
            ),
            Err(f) => enc_attr_list(pool, attrs, 0) == Err::<Seq<u8>, Flaw>(f),
        },
{
    if let Ok(bytes) = enc_attr(pool, attrs[i]) {
        if let Ok(rest) = enc_attr_list(pool, attrs, i + 1) {
            assert(acc + (bytes + rest) =~= (acc + bytes) + rest);
        }
    }
}

/// Appends a sixteen-bit count and the attributes of `attrs`.
pub fn write_attrs(out: &mut Vec<u8>, pool: &ConstantPool, attrs: &Vec<Attribute>) -> (r: Result<
    (),
    Flaw,
>)
    ensures
        appended(r, enc_attrs(pool@, attrs_view(attrs@)), old(out)@, final(out)@),
    decreases attrs, 0int,
{
    if attrs.len() > 0xFFFF {
        return Err(Flaw::CountOutOfRange);
    }
    let ghost views = attrs_view(attrs@);
    put_u16(out, attrs.len() as u16);
    let ghost start = out@;
    let ghost mut acc: Seq<u8> = Seq::empty();
    let mut i: usize = 0;
    proof {
        if let Ok(t) = enc_attr_list(pool@, views, 0) {
            assert(acc + t =~= t);
        }
        assert(start + acc =~= start);
    }
    while i < attrs.len()
        invariant
            i <= attrs.len(),
            attrs.len() <= 0xFFFF,
            views == attrs_view(attrs@),
            out@ == start + acc,
            enc_attr_list(pool@, views, 0) == then(Ok(acc), enc_attr_list(pool@, views, i as int)),
        decreases attrs.len() - i,
    {
        proof {
            lemma_enc_attr_list_step(pool@, views, i as int, acc);
            assert(views[i as int] == attrs@[i as int]@);
        }
        write_attr(out, pool, &attrs[i])?;
        proof {
            let e = enc_attr(pool@, views[i as int])->Ok_0;
            assert(out@ =~= start + (acc + e));
            acc = acc + e;
        }
        i = i + 1;
    }
    proof {
        assert(acc + Seq::<u8>::empty() =~= acc);
        assert(start + acc =~= old(out)@ + (be16(views.len() as u16) + acc));
    }
    Ok(())
}

/// Where [`find_name`] finds a name, the pool holds it.
pub proof fn lemma_find_name(pool: Seq<ConstantView>, kind: AttrKind, i: int)
    requires
        0 <= i,
    ensures
        find_name(pool, kind, i) matches Some(r) ==> i <= r < pool.len() && holds_name(pool[r], kind),
    decreases pool.len() - i,
{
    if i < pool.len() && !holds_name(pool[i], kind) {
        lemma_find_name(pool, kind, i + 1);
    }
}

/// Where the pool holds a name at `m`, [`find_name`] finds it there or
/// before.
pub proof fn lemma_find_name_exists(pool: Seq<ConstantView>, kind: AttrKind, i: int, m: int)
    requires
        0 <= i <= m < pool.len(),
        holds_name(pool[m], kind),
    ensures
        find_name(pool, kind, i) matches Some(r) && i <= r <= m,
    decreases m - i,
{
    if !holds_name(pool[i], kind) {
        lemma_find_name_exists(pool, kind, i + 1, m);
    }
}

/// The payload of a `Code` attribute that was written is read back from a
/// region that it fills.
proof fn lemma_code_payload_round_trip(
    pool: Seq<ConstantView>,
    a: AttributeView,
    s: Seq<u8>,
    pos: int,
    end: int,
)
    requires
        a is Code,
        enc_payload(pool, a) matches Ok(e) && occurs(s, pos, e) && pos + e.len() == end,
    ensures
        dec_payload(pool, AttrKind::Code, s, pos, end) == Ok::<(AttributeView, int), Fault>((a, end)),
    decreases a, 0int,
{
    let e = enc_payload(pool, a)->Ok_0;
    match a {
        AttributeView::Code { max_stack, max_locals, code, exception_table, attributes } => {
            let head = be16(max_stack) + be16(max_locals);
            assert(enc_payload(pool, a) == then(
                Ok(head),
                then(
                    enc_code_block(code),
                    then(enc_counted(exception_table), enc_attrs(pool, attributes)),
                ),
            ));
            let c = enc_code(code, 0)->Ok_0;
            let block = be32(c.len() as u32) + c;
            let table = enc_counted(exception_table)->Ok_0;
            let nested = enc_attrs(pool, attributes)->Ok_0;
            assert(e == head + (block + (table + nested)));
            lemma_occurs_split(s, pos, head, block + (table + nested));
            lemma_occurs_split(s, pos, be16(max_stack), be16(max_locals));
            lemma_occurs_u16(s, pos, end, max_stack);
            lemma_occurs_u16(s, pos + 2, end, max_locals);
            lemma_occurs_split(s, pos + 4, block, table + nested);
            lemma_occurs_split(s, pos + 4, be32(c.len() as u32), c);
            lemma_word32(s, pos + 4, c.len() as u32);
            let code_end = pos + 8 + c.len();
            lemma_code_round_trip(code, s, pos + 8, code_end, pos + 8);
            assert(dec_code(s, pos + 8, code_end, pos + 8) == Ok::<(Seq<Insn>, int), Fault>(
                (code, code_end),
            ));
            lemma_occurs_split(s, code_end, table, nested);
            lemma_counted_round_trip(exception_table, s, code_end, end);
            let t = code_end + table.len();
            assert(dec_counted::<ExceptionHandler>(s, code_end, end) == Ok::<
                (Seq<ExceptionHandler>, int),
                Fault,
            >((exception_table, t)));
            lemma_attrs_round_trip(pool, attributes, s, t, end);
            assert(dec_attrs(pool, s, t, end) == Ok::<(Seq<AttributeView>, int), Fault>(
                (attributes, end),
            ));
        },
        _ => {},
    }
}

/// The payload of an attribute without attributes of its own that was
/// written is read back from a region that it fills.
pub proof fn lemma_simple_round_trip(a: AttributeView, s: Seq<u8>, pos: int, end: int)
    requires
        kind_of_attr(a) is Some,
        !(a is Code),
        enc_simple(a) matches Ok(e) && occurs(s, pos, e) && pos + e.len() == end,
    ensures
        dec_simple(kind_of_attr(a)->Some_0, s, pos, end) == Ok::<(AttributeView, int), Fault>((a, end)),
{
    reveal(enc_simple);
    reveal(dec_simple);
    let e = enc_simple(a)->Ok_0;
    match a {
        AttributeView::ConstantValue(i) => {
            lemma_index_round_trip(i, s, pos, end);
        },
        AttributeView::Signature(i) => {
            lemma_index_round_trip(i, s, pos, end);
        },
        AttributeView::SourceFile(i) => {
            lemma_index_round_trip(i, s, pos, end);
        },
        AttributeView::Exceptions(v) => {
            lemma_counted_round_trip(v, s, pos, end);
        },
        AttributeView::InnerClass(v) => {
            lemma_counted_round_trip(v, s, pos, end);
        },
        AttributeView::EnclosingMethod { class_index, method_index } => {
            lemma_index_pair_round_trip(class_index, method_index, s, pos, end);
        },
        AttributeView::Synthetic => {},
        AttributeView::Deprecated => {},
        AttributeView::SourceDebugExtension(bytes) => {
            assert(s.subrange(pos, end) =~= bytes);
        },
        AttributeView::LineNumbeTable(v) => {
            lemma_counted_round_trip(v, s, pos, end);
        },
        AttributeView::LocalVariableTable(v) => {
            lemma_counted_round_trip(v, s, pos, end);
        },
        AttributeView::LocalVariableTableType(v) => {
            lemma_counted_round_trip(v, s, pos, end);
        },
        AttributeView::BootstrapMethods(v) => {
            lemma_counted_round_trip(v, s, pos, end);
        },
        AttributeView::MethodParameters(v) => {
            lemma_counted8_round_trip(v, s, pos, end);
        },
        _ => {},
    }
}

/// The payload of an attribute that was written is read back from a
/// region that it fills.
pub proof fn lemma_payload_round_trip(
    pool: Seq<ConstantView>,
    a: AttributeView,
    s: Seq<u8>,
    pos: int,
    end: int,
)
    requires
        kind_of_attr(a) is Some,
        enc_payload(pool, a) matches Ok(e) && occurs(s, pos, e) && pos + e.len() == end,
    ensures
        dec_payload(pool, kind_of_attr(a)->Some_0, s, pos, end) == Ok::<(AttributeView, int), Fault>(
            (a, end),
        ),
    decreases a, 1int,
{
    if a is Code {
        lemma_code_payload_round_trip(pool, a, s, pos, end);
    } else {
        lemma_simple_round_trip(a, s, pos, end);
    }
}

/// An attribute that was written is read back, and the reader stops where
/// its bytes end.
pub proof fn lemma_attr_round_trip(pool: Seq<ConstantView>, a: AttributeView, s: Seq<u8>, pos: int, end: int)
    requires
        enc_attr(pool, a) matches Ok(e) && occurs(s, pos, e) && pos + e.len() <= end,
    ensures
        dec_attr(pool, s, pos, end) == Ok::<(AttributeView, int), Fault>(
            (a, pos + enc_attr(pool, a)->Ok_0.len()),
        ),
        enc_attr(pool, a)->Ok_0.len() >= 6,
    decreases a, 2int,
{
    let e = enc_attr(pool, a)->Ok_0;
    match a {
        AttributeView::RawAttribute { name_index, info } => {
            let name = name_index.idx as u16;
            let head = be16(name) + be32(info.len() as u32);
            lemma_occurs_split(s, pos, head, info);
            lemma_occurs_split(s, pos, be16(name), be32(info.len() as u32));
            lemma_occurs_u16(s, pos, end, name);
            lemma_word32(s, pos + 2, info.len() as u32);
            assert(s.subrange(pos + 6, pos + 6 + info.len()) =~= info);
        },
        _ => {
            let kind = kind_of_attr(a)->Some_0;
            let i = find_name(pool, kind, 0)->Some_0;
            lemma_find_name(pool, kind, 0);
            let name = (i + 1) as u16;
            let payload = enc_payload(pool, a)->Ok_0;
            let head = be16(name) + be32(payload.len() as u32);
            lemma_occurs_split(s, pos, head, payload);
            lemma_occurs_split(s, pos, be16(name), be32(payload.len() as u32));
            lemma_occurs_u16(s, pos, end, name);
            lemma_word32(s, pos + 2, payload.len() as u32);
            assert(kind_at(pool, name as int) == Some(kind));
            lemma_payload_round_trip(pool, a, s, pos + 6, pos + 6 + payload.len());
        },
    }
}

/// Attributes that were written are read back.
pub proof fn lemma_attr_list_round_trip(
    pool: Seq<ConstantView>,
    attrs: Seq<AttributeView>,
    i: int,
    s: Seq<u8>,
    pos: int,
    end: int,
)
    requires
        0 <= i <= attrs.len(),
        enc_attr_list(pool, attrs, i) matches Ok(e) && occurs(s, pos, e) && pos + e.len() <= end,
    ensures
        dec_attr_list(pool, s, pos, end, attrs.len() - i) == Ok::<(Seq<AttributeView>, int), Fault>(
            (attrs.skip(i), pos + enc_attr_list(pool, attrs, i)->Ok_0.len()),
        ),
    decreases attrs, attrs.len() - i,
{
    if i >= attrs.len() {
        assert(attrs.skip(i) =~= Seq::empty());
    } else {
        let first = enc_attr(pool, attrs[i])->Ok_0;
        let rest = enc_attr_list(pool, attrs, i + 1)->Ok_0;
        lemma_occurs_split(s, pos, first, rest);
        lemma_attr_round_trip(pool, attrs[i], s, pos, end);
        lemma_attr_list_round_trip(pool, attrs, i + 1, s, pos + first.len(), end);
        assert(attrs.skip(i) =~= seq![attrs[i]] + attrs.skip(i + 1));
    }
}

/// A counted list of attributes that was written is read back.
pub proof fn lemma_attrs_round_trip(
    pool: Seq<ConstantView>,
    attrs: Seq<AttributeView>,
    s: Seq<u8>,
    pos: int,
    end: int,
)
    requires
        enc_attrs(pool, attrs) matches Ok(e) && occurs(s, pos, e) && pos + e.len() <= end,
    ensures
        dec_attrs(pool, s, pos, end) == Ok::<(Seq<AttributeView>, int), Fault>(
            (attrs, pos + enc_attrs(pool, attrs)->Ok_0.len()),
        ),
    decreases attrs, attrs.len() + 1,
{
    let body = enc_attr_list(pool, attrs, 0)->Ok_0;
    lemma_occurs_split(s, pos, be16(attrs.len() as u16), body);
    lemma_occurs_u16(s, pos, end, attrs.len() as u16);
    lemma_attr_list_round_trip(pool, attrs, 0, s, pos + 2, end);
    assert(attrs.skip(0) =~= attrs);
}

/// The attributes of `x + y` from the end of `x` on are those of `y`.
pub proof fn lemma_enc_attr_list_shift(
    pool: Seq<ConstantView>,
    x: Seq<AttributeView>,
    y: Seq<AttributeView>,
    i: int,
)
    requires
        0 <= i,
    ensures
        enc_attr_list(pool, x + y, x.len() + i) == enc_attr_list(pool, y, i),
    decreases y.len() - i,
{
    if i < y.len() {
        assert((x + y)[x.len() + i] == y[i]);
        lemma_enc_attr_list_shift(pool, x, y, i + 1);
    }
}

/// The payload of a `Code` attribute that was read has an encoding, as
/// long as the bytes that were read.
proof fn lemma_code_payload_encodable(pool: Seq<ConstantView>, s: Seq<u8>, pos: int, end: int)
    requires
        in_region(s, pos, end),
        dec_payload(pool, AttrKind::Code, s, pos, end) is Ok,
    ensures
        ({
            let (a, p) = dec_payload(pool, AttrKind::Code, s, pos, end)->Ok_0;
            &&& pos <= p <= end
            &&& a is Code
            &&& enc_payload(pool, a) matches Ok(e) && e.len() == p - pos
        }),
    decreases end - pos, 0int,
{
    let (a, p) = dec_payload(pool, AttrKind::Code, s, pos, end)->Ok_0;
    let max_stack = word16(s, pos);
    let max_locals = word16(s, pos + 2);
    let code_length = word32(s, pos + 4);
    let code_end = pos + 8 + code_length;
    let (code, _) = dec_code(s, pos + 8, code_end, pos + 8)->Ok_0;
    lemma_code_encodable(s, pos + 8, code_end, pos + 8);
    let c = enc_code(code, 0)->Ok_0;
    assert(c.len() == code_length);
    let (exception_table, t) = dec_counted::<ExceptionHandler>(s, code_end, end)->Ok_0;
    lemma_counted_encodable::<ExceptionHandler>(s, code_end, end);
    let table = enc_counted(exception_table)->Ok_0;
    let (attributes, _) = dec_attrs(pool, s, t, end)->Ok_0;
    lemma_attrs_encodable(pool, s, t, end);
    let nested = enc_attrs(pool, attributes)->Ok_0;
    assert(a == AttributeView::Code { max_stack, max_locals, code, exception_table, attributes });
    let head = be16(max_stack) + be16(max_locals);
    let block = be32(c.len() as u32) + c;
    assert(enc_code_block(code) == Ok::<Seq<u8>, Flaw>(block));
    assert(enc_payload(pool, a) == then(
        Ok(head),
        then(enc_code_block(code), then(enc_counted(exception_table), enc_attrs(pool, attributes))),
    ));
    assert(enc_payload(pool, a) == Ok::<Seq<u8>, Flaw>(head + (block + (table + nested))));
}

/// The payload of an attribute without attributes of its own that was
/// read has an encoding, as long as the bytes that were read.
pub proof fn lemma_simple_encodable(kind: AttrKind, s: Seq<u8>, pos: int, end: int)
    requires
        in_region(s, pos, end),
        kind != AttrKind::Code,
        dec_simple(kind, s, pos, end) is Ok,
    ensures
        ({
            let (a, p) = dec_simple(kind, s, pos, end)->Ok_0;
            &&& pos <= p <= end
            &&& kind_of_attr(a) == Some(kind)
            &&& enc_simple(a) matches Ok(e) && e.len() == p - pos
        }),
{
    reveal(enc_simple);
    reveal(dec_simple);
    match kind {
        AttrKind::ConstantValue | AttrKind::Signature | AttrKind::SourceFile => {
            lemma_index_encodable(s, pos, end);
        },
        AttrKind::Code => {},
        AttrKind::Exceptions => {
            lemma_counted_encodable::<ConstantPoolIndex>(s, pos, end);
        },
        AttrKind::InnerClasses => {
            lemma_counted_encodable::<InnerClass>(s, pos, end);
        },
        AttrKind::EnclosingMethod => {
            lemma_index_encodable(s, pos, end);
            lemma_index_encodable(s, pos + 2, end);
        },
        AttrKind::Synthetic | AttrKind::Deprecated => {},
        AttrKind::SourceDebugExtension => {},
        AttrKind::LineNumberTable => {
            lemma_counted_encodable::<LineNumberTable>(s, pos, end);
        },
        AttrKind::LocalVariableTable => {
            lemma_counted_encodable::<LocalVariableTable>(s, pos, end);
        },
        AttrKind::LocalVariableTypeTable => {
            lemma_counted_encodable::<LocalVariableTableType>(s, pos, end);
        },
        AttrKind::BootstrapMethods => {
            lemma_counted_encodable::<BootstrapMethodView>(s, pos, end);
        },
        AttrKind::MethodParameters => {
            lemma_counted8_encodable::<MethodParameter>(s, pos, end);
        },
    }
}

/// The payload of an attribute that was read has an encoding, as long as
/// the bytes that were read.
pub proof fn lemma_payload_encodable(
    pool: Seq<ConstantView>,
    kind: AttrKind,
    s: Seq<u8>,
    pos: int,
    end: int,
)
    requires
        in_region(s, pos, end),
        dec_payload(pool, kind, s, pos, end) is Ok,
    ensures
        ({
            let (a, p) = dec_payload(pool, kind, s, pos, end)->Ok_0;
            &&& pos <= p <= end
            &&& kind_of_attr(a) == Some(kind)
            &&& enc_payload(pool, a) matches Ok(e) && e.len() == p - pos
        }),
    decreases end - pos, 1int,
{
    if kind == AttrKind::Code {
        lemma_code_payload_encodable(pool, s, pos, end);
    } else {
        lemma_simple_encodable(kind, s, pos, end);
    }
}

/// An attribute that was read has an encoding, as long as the bytes that
/// were read.
pub proof fn lemma_attr_encodable(pool: Seq<ConstantView>, s: Seq<u8>, pos: int, end: int)
    requires
        in_region(s, pos, end),
        dec_attr(pool, s, pos, end) is Ok,
    ensures
        ({
            let (a, p) = dec_attr(pool, s, pos, end)->Ok_0;
            &&& pos < p <= end
            &&& enc_attr(pool, a) matches Ok(e) && e.len() == p - pos
        }),
    decreases end - pos, 2int,
{
    let name = word16(s, pos);
    let length = word32(s, pos + 2);
    let start = pos + 6;
    let stop = start + length;
    match kind_at(pool, name as int) {
        None => {},
        Some(kind) => {
            let (a, p) = dec_payload(pool, kind, s, start, stop)->Ok_0;
            lemma_payload_encodable(pool, kind, s, start, stop);
            lemma_find_name_exists(pool, kind, 0, name - 1);
        },
    }
}

/// Attributes that were read are as many as were asked for and have an
/// encoding, as long as the bytes that were read.
pub proof fn lemma_attr_list_encodable(pool: Seq<ConstantView>, s: Seq<u8>, pos: int, end: int, n: int)
    requires
        in_region(s, pos, end),
        0 <= n,
        dec_attr_list(pool, s, pos, end, n) is Ok,
    ensures
        ({
            let (attrs, p) = dec_attr_list(pool, s, pos, end, n)->Ok_0;
            &&& attrs.len() == n
            &&& pos <= p <= end
            &&& enc_attr_list(pool, attrs, 0) matches Ok(e) && e.len() == p - pos
        }),
    decreases end - pos, n + 3,
{
    if n > 0 {
        let (a, p) = dec_attr(pool, s, pos, end)->Ok_0;
        lemma_attr_encodable(pool, s, pos, end);
        lemma_attr_list_encodable(pool, s, p, end, n - 1);
        let (rest, _) = dec_attr_list(pool, s, p, end, n - 1)->Ok_0;
        let attrs = seq![a] + rest;
        assert(attrs[0] == a);
        lemma_enc_attr_list_shift(pool, seq![a], rest, 0);
    }
}

/// A counted list of attributes that was read has an encoding, as long as
/// the bytes that were read.
pub proof fn lemma_attrs_encodable(pool: Seq<ConstantView>, s: Seq<u8>, pos: int, end: int)
    requires
        in_region(s, pos, end),
        dec_attrs(pool, s, pos, end) is Ok,
    ensures
        ({
            let (attrs, p) = dec_attrs(pool, s, pos, end)->Ok_0;
            &&& pos <= p <= end
            &&& enc_attrs(pool, attrs) matches Ok(e) && e.len() == p - pos
        }),
    decreases end - pos, 0int,
{
    lemma_attr_list_encodable(pool, s, pos + 2, end, word16(s, pos) as int);
}

} // verus!
