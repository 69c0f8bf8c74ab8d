//! A structured look at the attributes that the codec keeps as bytes.
//!
//! Of a stack map table, of annotations and of type annotations the model
//! holds a part only, so the codec keeps them as `RawAttribute`: the bytes
//! stay what is written back. `project` reads such an attribute into the
//! variant of its name, as far as the model goes.
use vstd::prelude::*;
use crate::bytecode::annotation::dec_annotations_payload;
use crate::bytecode::annotation::dec_default_payload;
use crate::bytecode::annotation::dec_parameters_payload;
use crate::bytecode::annotation::dec_type_annotations_payload;
use crate::bytecode::annotation::read_annotations_payload;
use crate::bytecode::annotation::read_default_payload;
use crate::bytecode::annotation::read_parameters_payload;
use crate::bytecode::annotation::read_type_annotations_payload;
use crate::bytecode::classfile::AnnotationView;
use crate::bytecode::classfile::Attribute;
use crate::bytecode::classfile::AttributeView;
use crate::bytecode::classfile::Constant;
use crate::bytecode::classfile::ConstantPool;
use crate::bytecode::classfile::ConstantView;
use crate::bytecode::classfile::ElementValueView;
use crate::bytecode::classfile::StackMapFrameView;
use crate::bytecode::classfile::TypeAnnotationView;
use crate::bytecode::classfile::utf8_at;
use crate::bytecode::frames::dec_stack_map_table;
use crate::bytecode::frames::read_stack_map_table;
use crate::bytecode::wire::Fault;

verus! {

/// The attributes that are kept as bytes and can be looked at in a
/// structured form.
#[derive(Clone, Copy, Debug, PartialEq, Eq, Structural)]
pub enum PartialKind {
    StackMapTable,
    RuntimeVisibleAnnotations,
    RuntimeInvisibleAnnotations,
    RuntimeVisibleParameterAnnotations,
    RuntimeInvisibleParameterAnnotations,
    RuntimeVisibleTypeAnnotations,
    RuntimeInvisibleTypeAnnotations,
    AnnotationDefault,
}

/// The name of the attributes of kind `kind`, in ASCII.
pub open spec fn partial_name(kind: PartialKind) -> Seq<u8> {
    match kind {
        // "StackMapTable"
        PartialKind::StackMapTable => seq![
            83u8, 116u8, 97u8, 99u8, 107u8, 77u8, 97u8, 112u8, 84u8, 97u8, 98u8, 108u8,
            101u8,
        ],
        // "RuntimeVisibleAnnotations"
        PartialKind::RuntimeVisibleAnnotations => seq![
            82u8, 117u8, 110u8, 116u8, 105u8, 109u8, 101u8, 86u8, 105u8, 115u8, 105u8, 98u8,
            108u8, 101u8, 65u8, 110u8, 110u8, 111u8, 116u8, 97u8, 116u8, 105u8, 111u8, 110u8,
            115u8,
        ],
        // "RuntimeInvisibleAnnotations"
        PartialKind::RuntimeInvisibleAnnotations => seq![
            82u8, 117u8, 110u8, 116u8, 105u8, 109u8, 101u8, 73u8, 110u8, 118u8, 105u8, 115u8,
            105u8, 98u8, 108u8, 101u8, 65u8, 110u8, 110u8, 111u8, 116u8, 97u8, 116u8, 105u8,
            111u8, 110u8, 115u8,
        ],
        // "RuntimeVisibleParameterAnnotations"
        PartialKind::RuntimeVisibleParameterAnnotations => seq![
            82u8, 117u8, 110u8, 116u8, 105u8, 109u8, 101u8, 86u8, 105u8, 115u8, 105u8, 98u8,
            108u8, 101u8, 80u8, 97u8, 114u8, 97u8, 109u8, 101u8, 116u8, 101u8, 114u8, 65u8,
            110u8, 110u8, 111u8, 116u8, 97u8, 116u8, 105u8, 111u8, 110u8, 115u8,
        ],
        // "RuntimeInvisibleParameterAnnotations"
        PartialKind::RuntimeInvisibleParameterAnnotations => seq![
            82u8, 117u8, 110u8, 116u8, 105u8, 109u8, 101u8, 73u8, 110u8, 118u8, 105u8, 115u8,
            105u8, 98u8, 108u8, 101u8, 80u8, 97u8, 114u8, 97u8, 109u8, 101u8, 116u8, 101u8,
            114u8, 65u8, 110u8, 110u8, 111u8, 116u8, 97u8, 116u8, 105u8, 111u8, 110u8, 115u8,
        ],
        // "RuntimeVisibleTypeAnnotations"
        PartialKind::RuntimeVisibleTypeAnnotations => seq![
            82u8, 117u8, 110u8, 116u8, 105u8, 109u8, 101u8, 86u8, 105u8, 115u8, 105u8, 98u8,
            108u8, 101u8, 84u8, 121u8, 112u8, 101u8, 65u8, 110u8, 110u8, 111u8, 116u8, 97u8,
            116u8, 105u8, 111u8, 110u8, 115u8,
        ],
        // "RuntimeInvisibleTypeAnnotations"
        PartialKind::RuntimeInvisibleTypeAnnotations => seq![
            82u8, 117u8, 110u8, 116u8, 105u8, 109u8, 101u8, 73u8, 110u8, 118u8, 105u8, 115u8,
            105u8, 98u8, 108u8, 101u8, 84u8, 121u8, 112u8, 101u8, 65u8, 110u8, 110u8, 111u8,
            116u8, 97u8, 116u8, 105u8, 111u8, 110u8, 115u8,
        ],
        // "AnnotationDefault"
        PartialKind::AnnotationDefault => seq![
            65u8, 110u8, 110u8, 111u8, 116u8, 97u8, 116u8, 105u8, 111u8, 110u8, 68u8, 101u8,
            102u8, 97u8, 117u8, 108u8, 116u8,
        ],
    }
}

/// The kind that bears the name `name`, if one does.
#[verifier::opaque]
pub open spec fn partial_of_name(name: Seq<u8>) -> Option<PartialKind> {
    if name == partial_name(PartialKind::StackMapTable) {
        Some(PartialKind::StackMapTable)
    } else if name == partial_name(PartialKind::RuntimeVisibleAnnotations) {
        Some(PartialKind::RuntimeVisibleAnnotations)
    } else if name == partial_name(PartialKind::RuntimeInvisibleAnnotations) {
        Some(PartialKind::RuntimeInvisibleAnnotations)
    } else if name == partial_name(PartialKind::RuntimeVisibleParameterAnnotations) {
        Some(PartialKind::RuntimeVisibleParameterAnnotations)
    } else if name == partial_name(PartialKind::RuntimeInvisibleParameterAnnotations) {
        Some(PartialKind::RuntimeInvisibleParameterAnnotations)
    } else if name == partial_name(PartialKind::RuntimeVisibleTypeAnnotations) {
        Some(PartialKind::RuntimeVisibleTypeAnnotations)
    } else if name == partial_name(PartialKind::RuntimeInvisibleTypeAnnotations) {
        Some(PartialKind::RuntimeInvisibleTypeAnnotations)
    } else if name == partial_name(PartialKind::AnnotationDefault) {
        Some(PartialKind::AnnotationDefault)
    } else {
        None
    }
}

/// The bytes `n` are the name of the attributes of kind `kind`.
pub fn is_partial_name(n: &Vec<u8>, kind: PartialKind) -> (r: bool)
    ensures
        r == (n@ == partial_name(kind)),
{
    match kind {
        PartialKind::StackMapTable => {
            let r = n.len() == 13 && n[0] == 83 && n[1] == 116 && n[2] == 97 && n[3] == 99
                && n[4] == 107 && n[5] == 77 && n[6] == 97 && n[7] == 112 && n[8] == 84
                && n[9] == 97 && n[10] == 98 && n[11] == 108 && n[12] == 101;
            proof {
                let name = partial_name(PartialKind::StackMapTable);
                if r {
                    assert(n@ =~= name);
                } else if n@.len() == 13 {
                    assert(name[0] == 83);
                    assert(name[1] == 116);
                    assert(name[2] == 97);
                    assert(name[3] == 99);
                    assert(name[4] == 107);
                    assert(name[5] == 77);
                    assert(name[6] == 97);
                    assert(name[7] == 112);
                    assert(name[8] == 84);
                    assert(name[9] == 97);
                    assert(name[10] == 98);
                    assert(name[11] == 108);
                    assert(name[12] == 101);
                }
            }
            r
        },
        PartialKind::RuntimeVisibleAnnotations => {
            let r = n.len() == 25 && n[0] == 82 && n[1] == 117 && n[2] == 110 && n[3] == 116
                && n[4] == 105 && n[5] == 109 && n[6] == 101 && n[7] == 86 && n[8] == 105
                && n[9] == 115 && n[10] == 105 && n[11] == 98 && n[12] == 108 && n[13] == 101
                && n[14] == 65 && n[15] == 110 && n[16] == 110 && n[17] == 111 && n[18] == 116
                && n[19] == 97 && n[20] == 116 && n[21] == 105 && n[22] == 111 && n[23] == 110
                && n[24] == 115;
            proof {
                let name = partial_name(PartialKind::RuntimeVisibleAnnotations);
                if r {
                    assert(n@ =~= name);
                } else if n@.len() == 25 {
                    assert(name[0] == 82);
                    assert(name[1] == 117);
                    assert(name[2] == 110);
                    assert(name[3] == 116);
                    assert(name[4] == 105);
                    assert(name[5] == 109);
                    assert(name[6] == 101);
                    assert(name[7] == 86);
                    assert(name[8] == 105);
                    assert(name[9] == 115);
                    assert(name[10] == 105);
                    assert(name[11] == 98);
                    assert(name[12] == 108);
                    assert(name[13] == 101);
                    assert(name[14] == 65);
                    assert(name[15] == 110);
                    assert(name[16] == 110);
                    assert(name[17] == 111);
                    assert(name[18] == 116);
                    assert(name[19] == 97);
                    assert(name[20] == 116);
                    assert(name[21] == 105);
                    assert(name[22] == 111);
                    assert(name[23] == 110);
                    assert(name[24] == 115);
                }
            }
            r
        },
        PartialKind::RuntimeInvisibleAnnotations => {
            let r = n.len() == 27 && n[0] == 82 && n[1] == 117 && n[2] == 110 && n[3] == 116
                && n[4] == 105 && n[5] == 109 && n[6] == 101 && n[7] == 73 && n[8] == 110
                && n[9] == 118 && n[10] == 105 && n[11] == 115 && n[12] == 105 && n[13] == 98
                && n[14] == 108 && n[15] == 101 && n[16] == 65 && n[17] == 110 && n[18] == 110
                && n[19] == 111 && n[20] == 116 && n[21] == 97 && n[22] == 116 && n[23] == 105
                && n[24] == 111 && n[25] == 110 && n[26] == 115;
            proof {
                let name = partial_name(PartialKind::RuntimeInvisibleAnnotations);
                if r {
                    assert(n@ =~= name);
                } else if n@.len() == 27 {
                    assert(name[0] == 82);
                    assert(name[1] == 117);
                    assert(name[2] == 110);
                    assert(name[3] == 116);
                    assert(name[4] == 105);
                    assert(name[5] == 109);
                    assert(name[6] == 101);
                    assert(name[7] == 73);
                    assert(name[8] == 110);
                    assert(name[9] == 118);
                    assert(name[10] == 105);
                    assert(name[11] == 115);
                    assert(name[12] == 105);
                    assert(name[13] == 98);
                    assert(name[14] == 108);
                    assert(name[15] == 101);
                    assert(name[16] == 65);
                    assert(name[17] == 110);
                    assert(name[18] == 110);
                    assert(name[19] == 111);
                    assert(name[20] == 116);
                    assert(name[21] == 97);
                    assert(name[22] == 116);
                    assert(name[23] == 105);
                    assert(name[24] == 111);
                    assert(name[25] == 110);
                    assert(name[26] == 115);
                }
            }
            r
        },
        PartialKind::RuntimeVisibleParameterAnnotations => {
            let r = n.len() == 34 && n[0] == 82 && n[1] == 117 && n[2] == 110 && n[3] == 116
                && n[4] == 105 && n[5] == 109 && n[6] == 101 && n[7] == 86 && n[8] == 105
                && n[9] == 115 && n[10] == 105 && n[11] == 98 && n[12] == 108 && n[13] == 101
                && n[14] == 80 && n[15] == 97 && n[16] == 114 && n[17] == 97 && n[18] == 109
                && n[19] == 101 && n[20] == 116 && n[21] == 101 && n[22] == 114 && n[23] == 65
                && n[24] == 110 && n[25] == 110 && n[26] == 111 && n[27] == 116 && n[28] == 97
                && n[29] == 116 && n[30] == 105 && n[31] == 111 && n[32] == 110 && n[33] == 115;
            proof {
                let name = partial_name(PartialKind::RuntimeVisibleParameterAnnotations);
                if r {
                    assert(n@ =~= name);
                } else if n@.len() == 34 {
                    assert(name[0] == 82);
                    assert(name[1] == 117);
                    assert(name[2] == 110);
                    assert(name[3] == 116);
                    assert(name[4] == 105);
                    assert(name[5] == 109);
                    assert(name[6] == 101);
                    assert(name[7] == 86);
                    assert(name[8] == 105);
                    assert(name[9] == 115);
                    assert(name[10] == 105);
                    assert(name[11] == 98);
                    assert(name[12] == 108);
                    assert(name[13] == 101);
                    assert(name[14] == 80);
                    assert(name[15] == 97);
                    assert(name[16] == 114);
                    assert(name[17] == 97);
                    assert(name[18] == 109);
                    assert(name[19] == 101);
                    assert(name[20] == 116);
                    assert(name[21] == 101);
                    assert(name[22] == 114);
                    assert(name[23] == 65);
                    assert(name[24] == 110);
                    assert(name[25] == 110);
                    assert(name[26] == 111);
                    assert(name[27] == 116);
                    assert(name[28] == 97);
                    assert(name[29] == 116);
                    assert(name[30] == 105);
                    assert(name[31] == 111);
                    assert(name[32] == 110);
                    assert(name[33] == 115);
                }
            }
            r
        },
        PartialKind::RuntimeInvisibleParameterAnnotations => {
            let r = n.len() == 36 && n[0] == 82 && n[1] == 117 && n[2] == 110 && n[3] == 116
                && n[4] == 105 && n[5] == 109 && n[6] == 101 && n[7] == 73 && n[8] == 110
                && n[9] == 118 && n[10] == 105 && n[11] == 115 && n[12] == 105 && n[13] == 98
                && n[14] == 108 && n[15] == 101 && n[16] == 80 && n[17] == 97 && n[18] == 114
                && n[19] == 97 && n[20] == 109 && n[21] == 101 && n[22] == 116 && n[23] == 101
                && n[24] == 114 && n[25] == 65 && n[26] == 110 && n[27] == 110 && n[28] == 111
                && n[29] == 116 && n[30] == 97 && n[31] == 116 && n[32] == 105 && n[33] == 111
                && n[34] == 110 && n[35] == 115;
            proof {
                let name = partial_name(PartialKind::RuntimeInvisibleParameterAnnotations);
                if r {
                    assert(n@ =~= name);
                } else if n@.len() == 36 {
                    assert(name[0] == 82);
                    assert(name[1] == 117);
                    assert(name[2] == 110);
                    assert(name[3] == 116);
                    assert(name[4] == 105);
                    assert(name[5] == 109);
                    assert(name[6] == 101);
                    assert(name[7] == 73);
                    assert(name[8] == 110);
                    assert(name[9] == 118);
                    assert(name[10] == 105);
                    assert(name[11] == 115);
                    assert(name[12] == 105);
                    assert(name[13] == 98);
                    assert(name[14] == 108);
                    assert(name[15] == 101);
                    assert(name[16] == 80);
                    assert(name[17] == 97);
                    assert(name[18] == 114);
                    assert(name[19] == 97);
                    assert(name[20] == 109);
                    assert(name[21] == 101);
                    assert(name[22] == 116);
                    assert(name[23] == 101);
                    assert(name[24] == 114);
                    assert(name[25] == 65);
                    assert(name[26] == 110);
                    assert(name[27] == 110);
                    assert(name[28] == 111);
                    assert(name[29] == 116);
                    assert(name[30] == 97);
                    assert(name[31] == 116);
                    assert(name[32] == 105);
                    assert(name[33] == 111);
                    assert(name[34] == 110);
                    assert(name[35] == 115);
                }
            }
            r
        },
        PartialKind::RuntimeVisibleTypeAnnotations => {
            let r = n.len() == 29 && n[0] == 82 && n[1] == 117 && n[2] == 110 && n[3] == 116
                && n[4] == 105 && n[5] == 109 && n[6] == 101 && n[7] == 86 && n[8] == 105
                && n[9] == 115 && n[10] == 105 && n[11] == 98 && n[12] == 108 && n[13] == 101
                && n[14] == 84 && n[15] == 121 && n[16] == 112 && n[17] == 101 && n[18] == 65
                && n[19] == 110 && n[20] == 110 && n[21] == 111 && n[22] == 116 && n[23] == 97
                && n[24] == 116 && n[25] == 105 && n[26] == 111 && n[27] == 110 && n[28] == 115;
            proof {
                let name = partial_name(PartialKind::RuntimeVisibleTypeAnnotations);
                if r {
                    assert(n@ =~= name);
                } else if n@.len() == 29 {
                    assert(name[0] == 82);
                    assert(name[1] == 117);
                    assert(name[2] == 110);
                    assert(name[3] == 116);
                    assert(name[4] == 105);
                    assert(name[5] == 109);
                    assert(name[6] == 101);
                    assert(name[7] == 86);
                    assert(name[8] == 105);
                    assert(name[9] == 115);
                    assert(name[10] == 105);
                    assert(name[11] == 98);
                    assert(name[12] == 108);
                    assert(name[13] == 101);
                    assert(name[14] == 84);
                    assert(name[15] == 121);
                    assert(name[16] == 112);
                    assert(name[17] == 101);
                    assert(name[18] == 65);
                    assert(name[19] == 110);
                    assert(name[20] == 110);
                    assert(name[21] == 111);
                    assert(name[22] == 116);
                    assert(name[23] == 97);
                    assert(name[24] == 116);
                    assert(name[25] == 105);
                    assert(name[26] == 111);
                    assert(name[27] == 110);
                    assert(name[28] == 115);
                }
            }
            r
        },
        PartialKind::RuntimeInvisibleTypeAnnotations => {
            let r = n.len() == 31 && n[0] == 82 && n[1] == 117 && n[2] == 110 && n[3] == 116
                && n[4] == 105 && n[5] == 109 && n[6] == 101 && n[7] == 73 && n[8] == 110
                && n[9] == 118 && n[10] == 105 && n[11] == 115 && n[12] == 105 && n[13] == 98
                && n[14] == 108 && n[15] == 101 && n[16] == 84 && n[17] == 121 && n[18] == 112
                && n[19] == 101 && n[20] == 65 && n[21] == 110 && n[22] == 110 && n[23] == 111
                && n[24] == 116 && n[25] == 97 && n[26] == 116 && n[27] == 105 && n[28] == 111
                && n[29] == 110 && n[30] == 115;
            proof {
                let name = partial_name(PartialKind::RuntimeInvisibleTypeAnnotations);
                if r {
                    assert(n@ =~= name);
                } else if n@.len() == 31 {
                    assert(name[0] == 82);
                    assert(name[1] == 117);
                    assert(name[2] == 110);
                    assert(name[3] == 116);
                    assert(name[4] == 105);
                    assert(name[5] == 109);
                    assert(name[6] == 101);
                    assert(name[7] == 73);
                    assert(name[8] == 110);
                    assert(name[9] == 118);
                    assert(name[10] == 105);
                    assert(name[11] == 115);
                    assert(name[12] == 105);
                    assert(name[13] == 98);
                    assert(name[14] == 108);
                    assert(name[15] == 101);
                    assert(name[16] == 84);
                    assert(name[17] == 121);
                    assert(name[18] == 112);
                    assert(name[19] == 101);
                    assert(name[20] == 65);
                    assert(name[21] == 110);
                    assert(name[22] == 110);
                    assert(name[23] == 111);
                    assert(name[24] == 116);
                    assert(name[25] == 97);
                    assert(name[26] == 116);
                    assert(name[27] == 105);
                    assert(name[28] == 111);
                    assert(name[29] == 110);
                    assert(name[30] == 115);
                }
            }
            r
        },
        PartialKind::AnnotationDefault => {
            let r = n.len() == 17 && n[0] == 65 && n[1] == 110 && n[2] == 110 && n[3] == 111
                && n[4] == 116 && n[5] == 97 && n[6] == 116 && n[7] == 105 && n[8] == 111
                && n[9] == 110 && n[10] == 68 && n[11] == 101 && n[12] == 102 && n[13] == 97
                && n[14] == 117 && n[15] == 108 && n[16] == 116;
            proof {
                let name = partial_name(PartialKind::AnnotationDefault);
                if r {
                    assert(n@ =~= name);
                } else if n@.len() == 17 {
                    assert(name[0] == 65);
                    assert(name[1] == 110);
                    assert(name[2] == 110);
                    assert(name[3] == 111);
                    assert(name[4] == 116);
                    assert(name[5] == 97);
                    assert(name[6] == 116);
                    assert(name[7] == 105);
                    assert(name[8] == 111);
                    assert(name[9] == 110);
                    assert(name[10] == 68);
                    assert(name[11] == 101);
                    assert(name[12] == 102);
                    assert(name[13] == 97);
                    assert(name[14] == 117);
                    assert(name[15] == 108);
                    assert(name[16] == 116);
                }
            }
            r
        },
    }
}

/// The kind that bears the name `n`, if one does.
pub fn partial_of(n: &Vec<u8>) -> (r: Option<PartialKind>)
    ensures
        r == partial_of_name(n@),
{
    reveal(partial_of_name);
    if is_partial_name(n, PartialKind::StackMapTable) {
        Some(PartialKind::StackMapTable)
    } else if is_partial_name(n, PartialKind::RuntimeVisibleAnnotations) {
        Some(PartialKind::RuntimeVisibleAnnotations)
    } else if is_partial_name(n, PartialKind::RuntimeInvisibleAnnotations) {
        Some(PartialKind::RuntimeInvisibleAnnotations)
    } else if is_partial_name(n, PartialKind::RuntimeVisibleParameterAnnotations) {
        Some(PartialKind::RuntimeVisibleParameterAnnotations)
    } else if is_partial_name(n, PartialKind::RuntimeInvisibleParameterAnnotations) {
        Some(PartialKind::RuntimeInvisibleParameterAnnotations)
    } else if is_partial_name(n, PartialKind::RuntimeVisibleTypeAnnotations) {
        Some(PartialKind::RuntimeVisibleTypeAnnotations)
    } else if is_partial_name(n, PartialKind::RuntimeInvisibleTypeAnnotations) {
        Some(PartialKind::RuntimeInvisibleTypeAnnotations)
    } else if is_partial_name(n, PartialKind::AnnotationDefault) {
        Some(PartialKind::AnnotationDefault)
    } else {
        None
    }
}

/// What one payload decoder gave, as an attribute.
pub open spec fn as_attribute<T>(r: Result<T, Fault>, make: spec_fn(T) -> AttributeView) -> Result<
    AttributeView,
    Fault,
> {
    match r {
        Ok(v) => Ok(make(v)),
        Err(e) => Err(e),
    }
}

/// The attribute of kind `kind` that the payload `info` holds.
pub open spec fn structured(kind: PartialKind, info: Seq<u8>) -> Result<AttributeView, Fault> {
    match kind {
        PartialKind::StackMapTable => as_attribute(
            dec_stack_map_table(info),
            |v: Seq<StackMapFrameView>| AttributeView::StackMapTable(v),
        ),
        PartialKind::RuntimeVisibleAnnotations => as_attribute(
            dec_annotations_payload(info),
            |v: Seq<AnnotationView>| AttributeView::RuntimeVisibleAnnotations(v),
        ),
        PartialKind::RuntimeInvisibleAnnotations => as_attribute(
            dec_annotations_payload(info),
            |v: Seq<AnnotationView>| AttributeView::RuntimeInvisibleAnnotations(v),
        ),
        PartialKind::RuntimeVisibleParameterAnnotations => as_attribute(
            dec_parameters_payload(info),
            |v: Seq<Seq<AnnotationView>>| AttributeView::RuntimeVisibleParameterAnnotations(v),
        ),
        PartialKind::RuntimeInvisibleParameterAnnotations => as_attribute(
            dec_parameters_payload(info),
            |v: Seq<Seq<AnnotationView>>| AttributeView::RuntimeInvisibleParameterAnnotations(v),
        ),
        PartialKind::RuntimeVisibleTypeAnnotations => as_attribute(
            dec_type_annotations_payload(info),
            |v: Seq<TypeAnnotationView>| AttributeView::RuntimeVisibleTypeAnnotations(v),
        ),
        PartialKind::RuntimeInvisibleTypeAnnotations => as_attribute(
            dec_type_annotations_payload(info),
            |v: Seq<TypeAnnotationView>| AttributeView::RuntimeInvisibleTypeAnnotations(v),
        ),
        PartialKind::AnnotationDefault => as_attribute(
            dec_default_payload(info),
            |v: ElementValueView| AttributeView::AnnotationDefault(v),
        ),
    }
}

/// The kind of the raw attribute `a`, if the constant of the slot that it
/// names holds the name of one. Slot `j` stands at position `j - 1` of the
/// pool.
pub open spec fn partial_kind(pool: Seq<ConstantView>, a: AttributeView) -> Option<PartialKind> {
    match a {
        AttributeView::RawAttribute { name_index, info } => match utf8_at(pool, name_index.idx - 1) {
            Some(name) => partial_of_name(name),
            None => None,
        },
        _ => None,
    }
}

/// The structured form of the attribute `a`: none where `a` is no raw
/// attribute of one of the kinds above, and else what its bytes hold, or
/// why they hold no attribute of that kind.
pub open spec fn projected(pool: Seq<ConstantView>, a: AttributeView) -> Option<
    Result<AttributeView, Fault>,
> {
    match partial_kind(pool, a) {
        Some(kind) => Some(structured(kind, a->RawAttribute_info)),
        None => None,
    }
}

/// Reads the attribute of kind `kind` that the payload `info` holds.
pub fn read_structured(kind: PartialKind, info: &[u8]) -> (r: Result<Attribute, Fault>)
    ensures
        match r {
            Ok(x) => structured(kind, info@) == Ok::<AttributeView, Fault>(x@),
            Err(e) => structured(kind, info@) == Err::<AttributeView, Fault>(e),
        },
{
    match kind {
        PartialKind::StackMapTable => Ok(Attribute::StackMapTable(read_stack_map_table(info)?)),
        PartialKind::RuntimeVisibleAnnotations => Ok(
            Attribute::RuntimeVisibleAnnotations(read_annotations_payload(info)?),
        ),
        PartialKind::RuntimeInvisibleAnnotations => Ok(
            Attribute::RuntimeInvisibleAnnotations(read_annotations_payload(info)?),
        ),
        PartialKind::RuntimeVisibleParameterAnnotations => Ok(
            Attribute::RuntimeVisibleParameterAnnotations(read_parameters_payload(info)?),
        ),
        PartialKind::RuntimeInvisibleParameterAnnotations => Ok(
            Attribute::RuntimeInvisibleParameterAnnotations(read_parameters_payload(info)?),
        ),
        PartialKind::RuntimeVisibleTypeAnnotations => Ok(
            Attribute::RuntimeVisibleTypeAnnotations(read_type_annotations_payload(info)?),
        ),
        PartialKind::RuntimeInvisibleTypeAnnotations => Ok(
            Attribute::RuntimeInvisibleTypeAnnotations(read_type_annotations_payload(info)?),
        ),
        PartialKind::AnnotationDefault => Ok(Attribute::AnnotationDefault(read_default_payload(info)?)),
    }
}

/// Reads a raw attribute into the variant of its name. The attribute
/// itself stays as it is.
pub fn project(pool: &ConstantPool, a: &Attribute) -> (r: Option<Result<Attribute, Fault>>)
    ensures
        match r {
            None => projected(pool@, a@) is None,
            Some(Ok(x)) => projected(pool@, a@) == Some(Ok::<AttributeView, Fault>(x@)),
            Some(Err(e)) => projected(pool@, a@) == Some(Err::<AttributeView, Fault>(e)),
        },
{
    match a {
        Attribute::RawAttribute { name_index, info } => {
            if name_index.idx == 0 || name_index.idx - 1 >= pool.constants.len() {
                return None;
            }
            assert(pool@[name_index.idx - 1] == pool.constants@[name_index.idx - 1]@);
            match &pool.constants[name_index.idx - 1] {
                Constant::Utf8(name) => match partial_of(name) {
                    Some(kind) => Some(read_structured(kind, info.as_slice())),
                    None => None,
                },
                _ => None,
            }
        },
        _ => None,
    }
}

} // verus!
