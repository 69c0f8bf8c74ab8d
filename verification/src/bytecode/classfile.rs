//! The structural model of a class file.
//!
//! Every type here is plain data. A type that holds a `Vec` has a view in
//! which each `Vec` is a `Seq`; the contracts of the codec speak of views.
use vstd::prelude::*;
use crate::bytecode::insn::declared_len;


verus! {

/// A single JVM class or interface.
#[derive(Debug, PartialEq, Eq)]
pub struct Classfile {
    pub version: ClassfileVersion,
    pub constant_pool: ConstantPool,
    pub access_flags: AccessFlags,
    pub this_class: ConstantPoolIndex,
    pub super_class: ConstantPoolIndex,
    pub interfaces: Vec<ConstantPoolIndex>,
    pub fields: Vec<Field>,
    pub methods: Vec<Method>,
    pub attributes: Vec<Attribute>,
}

/// The view of a [`Classfile`].
pub struct ClassfileView {
    pub version: ClassfileVersion,
    pub constant_pool: Seq<ConstantView>,
    pub access_flags: AccessFlags,
    pub this_class: ConstantPoolIndex,
    pub super_class: ConstantPoolIndex,
    pub interfaces: Seq<ConstantPoolIndex>,
    pub fields: Seq<MemberView>,
    pub methods: Seq<MemberView>,
    pub attributes: Seq<AttributeView>,
}

impl View for Classfile {
    type V = ClassfileView;

    open spec fn view(&self) -> ClassfileView {
        ClassfileView {
            version: self.version,
            constant_pool: self.constant_pool@,
            access_flags: self.access_flags,
            this_class: self.this_class,
            super_class: self.super_class,
            interfaces: self.interfaces@,
            fields: fields_view(self.fields@),
            methods: methods_view(self.methods@),
            attributes: attrs_view(self.attributes@),
        }
    }
}

/// The class file that [`Classfile::new`] makes.
pub open spec fn empty_classfile() -> ClassfileView {
    ClassfileView {
        version: ClassfileVersion { major_version: 52, minor_version: 0 },
        constant_pool: Seq::empty(),
        access_flags: AccessFlags { flags: 0 },
        this_class: ConstantPoolIndex { idx: 0 },
        super_class: ConstantPoolIndex { idx: 0 },
        interfaces: Seq::empty(),
        fields: Seq::empty(),
        methods: Seq::empty(),
        attributes: Seq::empty(),
    }
}

impl Classfile {
    /// A class file of the default version with nothing in it.
    pub fn new() -> (r: Classfile)
        ensures
            r@ == empty_classfile(),
    {
        let r = Classfile {
            version: ClassfileVersion::new(52, 0),
            constant_pool: ConstantPool::new(Vec::new()),
            access_flags: AccessFlags::new(),
            this_class: ConstantPoolIndex::new(0),
            super_class: ConstantPoolIndex::new(0),
            interfaces: Vec::new(),
            fields: Vec::new(),
            methods: Vec::new(),
            attributes: Vec::new(),
        };
        assert(r@.constant_pool =~= Seq::empty());
        assert(r@.fields =~= Seq::empty());
        assert(r@.methods =~= Seq::empty());
        assert(r@.attributes =~= Seq::empty());
        r
    }
}

impl Default for Classfile {
    fn default() -> (r: Classfile)
        ensures
            r@ == empty_classfile(),
    {
        Classfile::new()
    }
}

/// A class file version. Versions are ordered by major number, then by
/// minor number.
#[derive(Clone, Copy, Debug, PartialEq, Eq, Structural, PartialOrd, Ord)]
pub struct ClassfileVersion {
    pub major_version: u16,
    pub minor_version: u16,
}

impl ClassfileVersion {
    /// The version `major_version.minor_version`.
    pub fn new(major_version: u16, minor_version: u16) -> (r: ClassfileVersion)
        ensures
            r.major_version == major_version,
            r.minor_version == minor_version,
    {
        ClassfileVersion { major_version, minor_version }
    }

    /// `self` is `other` or comes after it.
    pub open spec fn spec_at_least(&self, other: &ClassfileVersion) -> bool {
        self.major_version > other.major_version || (self.major_version == other.major_version
            && self.minor_version >= other.minor_version)
    }

    /// Whether this version is `other` or a later one.
    pub fn at_least(&self, other: &ClassfileVersion) -> (r: bool)
        ensures
            r == self.spec_at_least(other),
    {
        self.major_version > other.major_version || (self.major_version == other.major_version
            && self.minor_version >= other.minor_version)
    }
}

impl Default for ClassfileVersion {
    fn default() -> (r: ClassfileVersion)
        ensures
            r.major_version == 52,
            r.minor_version == 0,
    {
        ClassfileVersion { major_version: 52, minor_version: 0 }
    }
}

/// The table of constants that the rest of a class file refers to.
///
/// The table holds one entry for each slot from 1 on: the entry of slot `j`
/// stands at position `j - 1`. An eight-byte constant takes two slots, and
/// the second one holds a [`Constant::Placeholder`].
#[derive(Clone, Debug, PartialEq, Eq)]
pub struct ConstantPool {
    pub constants: Vec<Constant>,
}

impl View for ConstantPool {
    type V = Seq<ConstantView>;

    open spec fn view(&self) -> Seq<ConstantView> {
        constants_view(self.constants@)
    }
}

/// The views of a list of constants, in order.
pub open spec fn constants_view(s: Seq<Constant>) -> Seq<ConstantView> {
    s.map_values(|c: Constant| c@)
}

/// The bytes of the `Utf8` constant at position `idx`, if there is one.
pub open spec fn utf8_at(pool: Seq<ConstantView>, idx: int) -> Option<Seq<u8>> {
    if 0 <= idx < pool.len() {
        match pool[idx] {
            ConstantView::Utf8(bytes) => Some(bytes),
            _ => None,
        }
    } else {
        None
    }
}

/// The constant at position `idx`, unless that is past the end or the
/// second slot of an eight-byte constant.
pub open spec fn entry_at(pool: Seq<ConstantView>, idx: int) -> Option<ConstantView> {
    if 0 <= idx < pool.len() && !(pool[idx] is Placeholder) {
        Some(pool[idx])
    } else {
        None
    }
}

impl ConstantPool {
    /// The pool with the entries given.
    pub fn new(constants: Vec<Constant>) -> (r: ConstantPool)
        ensures
            r.constants == constants,
    {
        ConstantPool { constants }
    }

    /// The bytes of the `Utf8` constant at position `idx`.
    pub fn get_utf8(&self, idx: u16) -> (r: Option<&Vec<u8>>)
        ensures
            match r {
                Some(bytes) => utf8_at(self@, idx as int) == Some(bytes@),
                None => utf8_at(self@, idx as int) is None,
            },
    {
        if (idx as usize) < self.constants.len() {
            match &self.constants[idx as usize] {
                Constant::Utf8(bytes) => Some(bytes),
                _ => None,
            }
        } else {
            None
        }
    }

    /// The `Utf8` constant at position `idx` as a string. Bytes that are
    /// not strict UTF-8 give `None`.
    pub fn get_utf8_string(&self, idx: u16) -> (r: Option<String>)
        ensures
            match r {
                Some(s) => utf8_at(self@, idx as int) matches Some(bytes) && vstd::utf8::valid_utf8(
                    bytes,
                ) && s@ == vstd::utf8::decode_utf8(bytes),
                None => utf8_at(self@, idx as int) matches Some(bytes) ==> !vstd::utf8::valid_utf8(
                    bytes,
                ),
            },
    {
        match self.get_utf8(idx) {
            Some(bytes) => string_from_utf8(copy_bytes(bytes)),
            None => None,
        }
    }

    /// No index of `Utf8` constants is kept: always `None`.
    pub fn get_utf8_index(&self) -> (r: Option<usize>)
        ensures
            r is None,
    {
        None
    }

    /// The constant at the position that `idx` holds.
    pub fn resolve_index(&self, idx: &ConstantPoolIndex) -> (r: Option<&Constant>)
        ensures
            match r {
                Some(c) => entry_at(self@, idx.idx as int) == Some(c@),
                None => entry_at(self@, idx.idx as int) is None,
            },
    {
        if idx.idx < self.constants.len() {
            match &self.constants[idx.idx] {
                Constant::Placeholder => None,
                c => Some(c),
            }
        } else {
            None
        }
    }

    /// The constant of the slot that `slot` holds: the entry at the position
    /// before that number. Slot 0 has no constant.
    pub fn resolve_slot(&self, slot: &ConstantPoolIndex) -> (r: Option<&Constant>)
        ensures
            match r {
                Some(c) => entry_at(self@, slot.idx - 1) == Some(c@),
                None => entry_at(self@, slot.idx - 1) is None,
            },
    {
        if slot.idx == 0 {
            None
        } else {
            self.resolve_index(&ConstantPoolIndex { idx: slot.idx - 1 })
        }
    }

    /// The size of the pool as a class file states it: one more than the
    /// number of entries, placeholders included. There is none where that
    /// does not fit in sixteen bits.
    pub fn constant_pool_count(&self) -> (r: Option<u16>)
        ensures
            match r {
                Some(n) => n == self@.len() + 1,
                None => self@.len() + 1 > 0xFFFF,
            },
    {
        let n = self.constants.len();
        if n < 0xFFFF {
            Some((n + 1) as u16)
        } else {
            None
        }
    }

    /// The number of entries in the table, placeholders included.
    pub fn cp_len(&self) -> (r: usize)
        ensures
            r == self@.len(),
    {
        self.constants.len()
    }
}

impl Default for ConstantPool {
    fn default() -> (r: ConstantPool)
        ensures
            r@ == Seq::<ConstantView>::empty(),
    {
        let r = ConstantPool { constants: Vec::new() };
        assert(r@ =~= Seq::empty());
        r
    }
}

/// A copy of `bytes`.
pub fn copy_bytes(bytes: &Vec<u8>) -> (r: Vec<u8>)
    ensures
        r@ == bytes@,
{
    let mut r: Vec<u8> = Vec::new();
    let mut i: usize = 0;
    while i < bytes.len()
        invariant
            i <= bytes.len(),
            r@ == bytes@.subrange(0, i as int),
        decreases bytes.len() - i,
    {
        r.push(bytes[i]);
        i = i + 1;
    }
    assert(bytes@.subrange(0, bytes.len() as int) =~= bytes@);
    r
}

/// `String::from_utf8` of std. It gives the string exactly when the bytes
/// are strict UTF-8, and the string then holds the characters that the
/// bytes encode.
#[verifier::external_body]
fn string_from_utf8(bytes: Vec<u8>) -> (r: Option<String>)
    ensures
        r is Some <==> vstd::utf8::valid_utf8(bytes@),
        r matches Some(s) ==> s@ == vstd::utf8::decode_utf8(bytes@),
{
    match String::from_utf8(bytes) {
        Ok(s) => Some(s),
        Err(_) => None,
    }
}

/// A reference into the constant pool. A class file holds the number of a
/// slot, and slot 0 is never an entry: `ConstantPool::resolve_slot` gives
/// the constant of a slot, `ConstantPool::resolve_index` the entry at the
/// position of that number.
#[derive(Clone, Copy, Debug, PartialEq, Eq, Structural)]
pub struct ConstantPoolIndex {
    pub idx: usize,
}

impl ConstantPoolIndex {
    /// The reference that holds the number `idx`.
    pub fn new(idx: usize) -> (r: ConstantPoolIndex)
        ensures
            r.idx == idx,
    {
        ConstantPoolIndex { idx }
    }
}

impl Default for ConstantPoolIndex {
    fn default() -> (r: ConstantPoolIndex)
        ensures
            r.idx == 0,
    {
        ConstantPoolIndex { idx: 0 }
    }
}

/// One entry of the constant pool.
#[derive(Clone, Debug, PartialEq, Eq)]
pub enum Constant {
    /// Modified UTF-8, kept as raw bytes.
    Utf8(Vec<u8>),
    Integer(u32),
    Float(u32),
    Long(u64),
    Double(u64),
    Class(ConstantPoolIndex),
    FieldRef { class_index: ConstantPoolIndex, name_and_type_index: ConstantPoolIndex },
    MethodRef { class_index: ConstantPoolIndex, name_and_type_index: ConstantPoolIndex },
    InterfaceMethodRef { class_index: ConstantPoolIndex, name_and_type_index: ConstantPoolIndex },
    String(ConstantPoolIndex),
    NameAndType { name_index: ConstantPoolIndex, descriptor_index: ConstantPoolIndex },
    MethodHandle { reference_kind: ReferenceKind, reference_index: ConstantPoolIndex },
    MethodType(ConstantPoolIndex),
    InvokeDynamic { bootstrap_method_attr_index: ConstantPoolIndex, name_and_type_index: ConstantPoolIndex },
    /// A constant with a tag that is not defined.
    Unknown(u8),
    /// The second slot of a `Long` or a `Double`.
    Placeholder,
}

/// The view of a [`Constant`].
pub enum ConstantView {
    Utf8(Seq<u8>),
    Integer(u32),
    Float(u32),
    Long(u64),
    Double(u64),
    Class(ConstantPoolIndex),
    FieldRef { class_index: ConstantPoolIndex, name_and_type_index: ConstantPoolIndex },
    MethodRef { class_index: ConstantPoolIndex, name_and_type_index: ConstantPoolIndex },
    InterfaceMethodRef { class_index: ConstantPoolIndex, name_and_type_index: ConstantPoolIndex },
    String(ConstantPoolIndex),
    NameAndType { name_index: ConstantPoolIndex, descriptor_index: ConstantPoolIndex },
    MethodHandle { reference_kind: ReferenceKind, reference_index: ConstantPoolIndex },
    MethodType(ConstantPoolIndex),
    InvokeDynamic { bootstrap_method_attr_index: ConstantPoolIndex, name_and_type_index: ConstantPoolIndex },
    Unknown(u8),
    Placeholder,
}

impl View for Constant {
    type V = ConstantView;

    open spec fn view(&self) -> ConstantView {
        match *self {
            Constant::Utf8(bytes) => ConstantView::Utf8(bytes@),
            Constant::Integer(v) => ConstantView::Integer(v),
            Constant::Float(v) => ConstantView::Float(v),
            Constant::Long(v) => ConstantView::Long(v),
            Constant::Double(v) => ConstantView::Double(v),
            Constant::Class(i) => ConstantView::Class(i),
            Constant::FieldRef { class_index, name_and_type_index } => ConstantView::FieldRef {
                class_index,
                name_and_type_index,
            },
            Constant::MethodRef { class_index, name_and_type_index } => ConstantView::MethodRef {
                class_index,
                name_and_type_index,
            },
            Constant::InterfaceMethodRef {
                class_index,
                name_and_type_index,
            } => ConstantView::InterfaceMethodRef { class_index, name_and_type_index },
            Constant::String(i) => ConstantView::String(i),
            Constant::NameAndType { name_index, descriptor_index } => ConstantView::NameAndType {
                name_index,
                descriptor_index,
            },
            Constant::MethodHandle { reference_kind, reference_index } => ConstantView::MethodHandle {
                reference_kind,
                reference_index,
            },
            Constant::MethodType(i) => ConstantView::MethodType(i),
            Constant::InvokeDynamic {
                bootstrap_method_attr_index,
                name_and_type_index,
            } => ConstantView::InvokeDynamic { bootstrap_method_attr_index, name_and_type_index },
            Constant::Unknown(tag) => ConstantView::Unknown(tag),
            Constant::Placeholder => ConstantView::Placeholder,
        }
    }
}

impl ConstantView {
    /// `Long` and `Double` take two slots of the pool.
    pub open spec fn is_wide(self) -> bool {
        self is Long || self is Double
    }

    /// The number of slots that the constant takes.
    pub open spec fn slots(self) -> nat {
        if self.is_wide() {
            2
        } else if self is Placeholder {
            0
        } else {
            1
        }
    }
}

impl Constant {
    /// The number of pool slots that the constant takes: 2 for `Long` and
    /// `Double`, 0 for a placeholder, 1 for the others.
    pub fn cp_size(&self) -> (r: usize)
        ensures
            r == self@.slots(),
    {
        match self {
            Constant::Long(_) => 2,
            Constant::Double(_) => 2,
            Constant::Placeholder => 0,
            _ => 1,
        }
    }
}

/// The kind of a method handle.
#[derive(Clone, Copy, Debug, PartialEq, Eq, Structural)]
pub enum ReferenceKind {
    GetField,
    GetStatic,
    PutField,
    PutStatic,
    InvokeVirtual,
    InvokeStatic,
    InvokeSpecial,
    NewInvokeSpecial,
    InvokeInterface,
    Unknown,
}

impl ReferenceKind {
    /// The number of the kind: 1 to 9, and 255 for `Unknown`.
    pub open spec fn code(self) -> u8 {
        match self {
            ReferenceKind::GetField => 1,
            ReferenceKind::GetStatic => 2,
            ReferenceKind::PutField => 3,
            ReferenceKind::PutStatic => 4,
            ReferenceKind::InvokeVirtual => 5,
            ReferenceKind::InvokeStatic => 6,
            ReferenceKind::InvokeSpecial => 7,
            ReferenceKind::NewInvokeSpecial => 8,
            ReferenceKind::InvokeInterface => 9,
            ReferenceKind::Unknown => 255,
        }
    }

    /// The kind with the number `value`; `Unknown` where there is none.
    pub open spec fn of_code(value: u8) -> ReferenceKind {
        match value {
            1 => ReferenceKind::GetField,
            2 => ReferenceKind::GetStatic,
            3 => ReferenceKind::PutField,
            4 => ReferenceKind::PutStatic,
            5 => ReferenceKind::InvokeVirtual,
            6 => ReferenceKind::InvokeStatic,
            7 => ReferenceKind::InvokeSpecial,
            8 => ReferenceKind::NewInvokeSpecial,
            9 => ReferenceKind::InvokeInterface,
            _ => ReferenceKind::Unknown,
        }
    }

    /// The kind with the number `value`; `Unknown` where there is none.
    pub fn from_u8(value: u8) -> (r: ReferenceKind)
        ensures
            r == ReferenceKind::of_code(value),
    {
        match value {
            1 => ReferenceKind::GetField,
            2 => ReferenceKind::GetStatic,
            3 => ReferenceKind::PutField,
            4 => ReferenceKind::PutStatic,
            5 => ReferenceKind::InvokeVirtual,
            6 => ReferenceKind::InvokeStatic,
            7 => ReferenceKind::InvokeSpecial,
            8 => ReferenceKind::NewInvokeSpecial,
            9 => ReferenceKind::InvokeInterface,
            _ => ReferenceKind::Unknown,
        }
    }

    /// The number of the kind: 1 to 9, and 255 for `Unknown`.
    pub fn to_u8(&self) -> (r: u8)
        ensures
            r == self.code(),
    {
        match *self {
            ReferenceKind::GetField => 1,
            ReferenceKind::GetStatic => 2,
            ReferenceKind::PutField => 3,
            ReferenceKind::PutStatic => 4,
            ReferenceKind::InvokeVirtual => 5,
            ReferenceKind::InvokeStatic => 6,
            ReferenceKind::InvokeSpecial => 7,
            ReferenceKind::NewInvokeSpecial => 8,
            ReferenceKind::InvokeInterface => 9,
            ReferenceKind::Unknown => 255,
        }
    }
}

/// Every kind comes back from its number.
pub proof fn lemma_reference_kind_round_trip(kind: ReferenceKind)
    ensures
        ReferenceKind::of_code(kind.code()) == kind,
{
}

/// A set of access flags. What a bit means depends on where the flags
/// stand: see the five tables below.
#[derive(Clone, Copy, Debug, PartialEq, Eq, Structural)]
pub struct AccessFlags {
    pub flags: u16,
}

impl AccessFlags {
    /// No flag set.
    pub fn new() -> (r: AccessFlags)
        ensures
            r.flags == 0,
    {
        AccessFlags::of(0)
    }

    /// The flags with the bits of `val`.
    pub fn of(val: u16) -> (r: AccessFlags)
        ensures
            r.flags == val,
    {
        AccessFlags { flags: val }
    }

    /// Some bit of `flag` is set.
    pub open spec fn spec_has_flag(&self, flag: u16) -> bool {
        self.flags & flag != 0
    }

    /// Whether some bit of `flag` is set.
    pub fn has_flag(&self, flag: u16) -> (r: bool)
        ensures
            r == self.spec_has_flag(flag),
    {
        self.flags & flag > 0
    }

    /// Sets the bits of `flag`.
    pub fn set_flag(&mut self, flag: u16)
        ensures
            final(self).flags == old(self).flags | flag,
    {
        self.flags = self.flags | flag;
    }

    /// Clears the bits of `flag`.
    pub fn clear_flag(&mut self, flag: u16)
        ensures
            final(self).flags == old(self).flags & !flag,
    {
        let mask: u16 = flag ^ 0xFFFF;
        assert(flag ^ 0xFFFF == !flag) by (bit_vector);
        self.flags = self.flags & mask;
    }
}

impl Default for AccessFlags {
    fn default() -> (r: AccessFlags)
        ensures
            r.flags == 0,
    {
        AccessFlags { flags: 0 }
    }
}

/// A flag that was set is there, and the other bits are as before.
pub proof fn lemma_set_flag(flags: u16, flag: u16, other: u16)
    ensures
        flag != 0 ==> (flags | flag) & flag != 0,
        other & flag == 0 ==> ((flags | flag) & other) == (flags & other),
{
    assert(flag != 0 ==> (flags | flag) & flag != 0) by (bit_vector);
    assert(other & flag == 0 ==> ((flags | flag) & other) == (flags & other)) by (bit_vector);
}

/// A flag that was cleared is gone, and the other bits are as before.
pub proof fn lemma_clear_flag(flags: u16, flag: u16, other: u16)
    ensures
        (flags & !flag) & flag == 0,
        other & flag == 0 ==> ((flags & !flag) & other) == (flags & other),
{
    assert((flags & !flag) & flag == 0) by (bit_vector);
    assert(other & flag == 0 ==> ((flags & !flag) & other) == (flags & other)) by (bit_vector);
}

/// The flags of a class.
#[derive(Clone, Copy, Debug, PartialEq, Eq, Structural)]
pub enum ClassAccessFlags {
    Public,
    Final,
    Super,
    Interface,
    Abstract,
    Synthetic,
    Annotation,
    Enum,
}

impl ClassAccessFlags {
    /// The bit of the flag.
    pub open spec fn mask(self) -> u16 {
        match self {
            ClassAccessFlags::Public => 0x0001,
            ClassAccessFlags::Final => 0x0010,
            ClassAccessFlags::Super => 0x0020,
            ClassAccessFlags::Interface => 0x0200,
            ClassAccessFlags::Abstract => 0x0400,
            ClassAccessFlags::Synthetic => 0x1000,
            ClassAccessFlags::Annotation => 0x2000,
            ClassAccessFlags::Enum => 0x4000,
        }
    }

    /// The bit of the flag.
    pub fn bits(&self) -> (r: u16)
        ensures
            r == self.mask(),
    {
        match self {
            ClassAccessFlags::Public => 0x0001,
            ClassAccessFlags::Final => 0x0010,
            ClassAccessFlags::Super => 0x0020,
            ClassAccessFlags::Interface => 0x0200,
            ClassAccessFlags::Abstract => 0x0400,
            ClassAccessFlags::Synthetic => 0x1000,
            ClassAccessFlags::Annotation => 0x2000,
            ClassAccessFlags::Enum => 0x4000,
        }
    }
}

/// The flags of a field.
#[derive(Clone, Copy, Debug, PartialEq, Eq, Structural)]
pub enum FieldAccessFlags {
    Public,
    Private,
    Protected,
    Static,
    Final,
    Volatile,
    Transient,
    Synthetic,
    Enum,
}

impl FieldAccessFlags {
    /// The bit of the flag.
    pub open spec fn mask(self) -> u16 {
        match self {
            FieldAccessFlags::Public => 0x0001,
            FieldAccessFlags::Private => 0x0002,
            FieldAccessFlags::Protected => 0x0004,
            FieldAccessFlags::Static => 0x0008,
            FieldAccessFlags::Final => 0x0010,
            FieldAccessFlags::Volatile => 0x0040,
            FieldAccessFlags::Transient => 0x0080,
            FieldAccessFlags::Synthetic => 0x1000,
            FieldAccessFlags::Enum => 0x4000,
        }
    }

    /// The bit of the flag.
    pub fn bits(&self) -> (r: u16)
        ensures
            r == self.mask(),
    {
        match self {
            FieldAccessFlags::Public => 0x0001,
            FieldAccessFlags::Private => 0x0002,
            FieldAccessFlags::Protected => 0x0004,
            FieldAccessFlags::Static => 0x0008,
            FieldAccessFlags::Final => 0x0010,
            FieldAccessFlags::Volatile => 0x0040,
            FieldAccessFlags::Transient => 0x0080,
            FieldAccessFlags::Synthetic => 0x1000,
            FieldAccessFlags::Enum => 0x4000,
        }
    }
}

/// The flags of a method.
#[derive(Clone, Copy, Debug, PartialEq, Eq, Structural)]
pub enum MethodAccessFlags {
    Public,
    Private,
    Protected,
    Static,
    Final,
    Synchronized,
    Bridge,
    Varargs,
    Native,
    Abstract,
    Strict,
    Synthetic,
}

impl MethodAccessFlags {
    /// The bit of the flag.
    pub open spec fn mask(self) -> u16 {
        match self {
            MethodAccessFlags::Public => 0x0001,
            MethodAccessFlags::Private => 0x0002,
            MethodAccessFlags::Protected => 0x0004,
            MethodAccessFlags::Static => 0x0008,
            MethodAccessFlags::Final => 0x0010,
            MethodAccessFlags::Synchronized => 0x0020,
            MethodAccessFlags::Bridge => 0x0040,
            MethodAccessFlags::Varargs => 0x0080,
            MethodAccessFlags::Native => 0x0100,
            MethodAccessFlags::Abstract => 0x0400,
            MethodAccessFlags::Strict => 0x0800,
            MethodAccessFlags::Synthetic => 0x1000,
        }
    }

    /// The bit of the flag.
    pub fn bits(&self) -> (r: u16)
        ensures
            r == self.mask(),
    {
        match self {
            MethodAccessFlags::Public => 0x0001,
            MethodAccessFlags::Private => 0x0002,
            MethodAccessFlags::Protected => 0x0004,
            MethodAccessFlags::Static => 0x0008,
            MethodAccessFlags::Final => 0x0010,
            MethodAccessFlags::Synchronized => 0x0020,
            MethodAccessFlags::Bridge => 0x0040,
            MethodAccessFlags::Varargs => 0x0080,
            MethodAccessFlags::Native => 0x0100,
            MethodAccessFlags::Abstract => 0x0400,
            MethodAccessFlags::Strict => 0x0800,
            MethodAccessFlags::Synthetic => 0x1000,
        }
    }
}

/// The flags of an inner class.
#[derive(Clone, Copy, Debug, PartialEq, Eq, Structural)]
pub enum InnerClassAccessFlags {
    Public,
    Private,
    Protected,
    Static,
    Final,
    Interface,
    Abstract,
    Synthetic,
    Annotation,
    Enum,
}

impl InnerClassAccessFlags {
    /// The bit of the flag.
    pub open spec fn mask(self) -> u16 {
        match self {
            InnerClassAccessFlags::Public => 0x0001,
            InnerClassAccessFlags::Private => 0x0002,
            InnerClassAccessFlags::Protected => 0x0004,
            InnerClassAccessFlags::Static => 0x0008,
            InnerClassAccessFlags::Final => 0x0010,
            InnerClassAccessFlags::Interface => 0x0200,
            InnerClassAccessFlags::Abstract => 0x0400,
            InnerClassAccessFlags::Synthetic => 0x1000,
            InnerClassAccessFlags::Annotation => 0x2000,
            InnerClassAccessFlags::Enum => 0x4000,
        }
    }

    /// The bit of the flag.
    pub fn bits(&self) -> (r: u16)
        ensures
            r == self.mask(),
    {
        match self {
            InnerClassAccessFlags::Public => 0x0001,
            InnerClassAccessFlags::Private => 0x0002,
            InnerClassAccessFlags::Protected => 0x0004,
            InnerClassAccessFlags::Static => 0x0008,
            InnerClassAccessFlags::Final => 0x0010,
            InnerClassAccessFlags::Interface => 0x0200,
            InnerClassAccessFlags::Abstract => 0x0400,
            InnerClassAccessFlags::Synthetic => 0x1000,
            InnerClassAccessFlags::Annotation => 0x2000,
            InnerClassAccessFlags::Enum => 0x4000,
        }
    }
}

/// The flags of a method parameter.
#[derive(Clone, Copy, Debug, PartialEq, Eq, Structural)]
pub enum ParameterAccessFlags {
    Final,
    Synthetic,
    Mandated,
}

impl ParameterAccessFlags {
    /// The bit of the flag.
    pub open spec fn mask(self) -> u16 {
        match self {
            ParameterAccessFlags::Final => 0x0010,
            ParameterAccessFlags::Synthetic => 0x1000,
            ParameterAccessFlags::Mandated => 0x8000,
        }
    }

    /// The bit of the flag.
    pub fn bits(&self) -> (r: u16)
        ensures
            r == self.mask(),
    {
        match self {
            ParameterAccessFlags::Final => 0x0010,
            ParameterAccessFlags::Synthetic => 0x1000,
            ParameterAccessFlags::Mandated => 0x8000,
        }
    }
}

/// A field of a class.
#[derive(Debug, PartialEq, Eq)]
pub struct Field {
    pub access_flags: AccessFlags,
    pub name_index: ConstantPoolIndex,
    pub descriptor_index: ConstantPoolIndex,
    pub attributes: Vec<Attribute>,
}

/// A method of a class.
#[derive(Debug, PartialEq, Eq)]
pub struct Method {
    pub access_flags: AccessFlags,
    pub name_index: ConstantPoolIndex,
    pub descriptor_index: ConstantPoolIndex,
    pub attributes: Vec<Attribute>,
}

/// The view of a [`Field`] and of a [`Method`], which have the same layout.
pub struct MemberView {
    pub access_flags: AccessFlags,
    pub name_index: ConstantPoolIndex,
    pub descriptor_index: ConstantPoolIndex,
    pub attributes: Seq<AttributeView>,
}

impl View for Field {
    type V = MemberView;

    open spec fn view(&self) -> MemberView {
        MemberView {
            access_flags: self.access_flags,
            name_index: self.name_index,
            descriptor_index: self.descriptor_index,
            attributes: attrs_view(self.attributes@),
        }
    }
}

impl View for Method {
    type V = MemberView;

    open spec fn view(&self) -> MemberView {
        MemberView {
            access_flags: self.access_flags,
            name_index: self.name_index,
            descriptor_index: self.descriptor_index,
            attributes: attrs_view(self.attributes@),
        }
    }
}

/// The views of a list of fields, in order.
pub open spec fn fields_view(s: Seq<Field>) -> Seq<MemberView> {
    s.map_values(|f: Field| f@)
}

/// The views of a list of methods, in order.
pub open spec fn methods_view(s: Seq<Method>) -> Seq<MemberView> {
    s.map_values(|m: Method| m@)
}

/// The member that `Field::default` and `Method::default` make.
pub open spec fn empty_member() -> MemberView {
    MemberView {
        access_flags: AccessFlags { flags: 0 },
        name_index: ConstantPoolIndex { idx: 0 },
        descriptor_index: ConstantPoolIndex { idx: 0 },
        attributes: Seq::empty(),
    }
}

impl Default for Field {
    fn default() -> (r: Field)
        ensures
            r@ == empty_member(),
    {
        let r = Field {
            access_flags: AccessFlags::new(),
            name_index: ConstantPoolIndex::new(0),
            descriptor_index: ConstantPoolIndex::new(0),
            attributes: Vec::new(),
        };
        assert(r@.attributes =~= Seq::empty());
        r
    }
}

impl Default for Method {
    fn default() -> (r: Method)
        ensures
            r@ == empty_member(),
    {
        let r = Method {
            access_flags: AccessFlags::new(),
            name_index: ConstantPoolIndex::new(0),
            descriptor_index: ConstantPoolIndex::new(0),
            attributes: Vec::new(),
        };
        assert(r@.attributes =~= Seq::empty());
        r
    }
}

/// An attribute of a class, a field, a method or a `Code` attribute. The
/// name of an attribute is not held: it follows from the variant, but for
/// `RawAttribute`, which keeps the payload of an attribute as bytes.
#[derive(Debug, PartialEq, Eq)]
pub enum Attribute {
    ConstantValue(ConstantPoolIndex),
    Code {
        max_stack: u16,
        max_locals: u16,
        code: Vec<Instruction>,
        exception_table: Vec<ExceptionHandler>,
        attributes: Vec<Attribute>,
    },
    StackMapTable(Vec<StackMapFrame>),
    Exceptions(Vec<ConstantPoolIndex>),
    InnerClass(Vec<InnerClass>),
    EnclosingMethod { class_index: ConstantPoolIndex, method_index: ConstantPoolIndex },
    Synthetic,
    Signature(ConstantPoolIndex),
    SourceFile(ConstantPoolIndex),
    SourceDebugExtension(Vec<u8>),
    LineNumbeTable(Vec<LineNumberTable>),
    LocalVariableTable(Vec<LocalVariableTable>),
    LocalVariableTableType(Vec<LocalVariableTableType>),
    Deprecated,
    RuntimeVisibleAnnotations(Vec<Annotation>),
    RuntimeInvisibleAnnotations(Vec<Annotation>),
    RuntimeVisibleParameterAnnotations(Vec<Vec<Annotation>>),
    RuntimeInvisibleParameterAnnotations(Vec<Vec<Annotation>>),
    RuntimeVisibleTypeAnnotations(Vec<TypeAnnotation>),
    RuntimeInvisibleTypeAnnotations(Vec<TypeAnnotation>),
    AnnotationDefault(ElementValue),
    BootstrapMethods(Vec<BootstrapMethod>),
    MethodParameters(Vec<MethodParameter>),
    RawAttribute { name_index: ConstantPoolIndex, info: Vec<u8> },
}

/// The view of an [`Attribute`].
pub enum AttributeView {
    ConstantValue(ConstantPoolIndex),
    Code {
        max_stack: u16,
        max_locals: u16,
        code: Seq<Insn>,
        exception_table: Seq<ExceptionHandler>,
        attributes: Seq<AttributeView>,
    },
    StackMapTable(Seq<StackMapFrameView>),
    Exceptions(Seq<ConstantPoolIndex>),
    InnerClass(Seq<InnerClass>),
    EnclosingMethod { class_index: ConstantPoolIndex, method_index: ConstantPoolIndex },
    Synthetic,
    Signature(ConstantPoolIndex),
    SourceFile(ConstantPoolIndex),
    SourceDebugExtension(Seq<u8>),
    LineNumbeTable(Seq<LineNumberTable>),
    LocalVariableTable(Seq<LocalVariableTable>),
    LocalVariableTableType(Seq<LocalVariableTableType>),
    Deprecated,
    RuntimeVisibleAnnotations(Seq<AnnotationView>),
    RuntimeInvisibleAnnotations(Seq<AnnotationView>),
    RuntimeVisibleParameterAnnotations(Seq<Seq<AnnotationView>>),
    RuntimeInvisibleParameterAnnotations(Seq<Seq<AnnotationView>>),
    RuntimeVisibleTypeAnnotations(Seq<TypeAnnotationView>),
    RuntimeInvisibleTypeAnnotations(Seq<TypeAnnotationView>),
    AnnotationDefault(ElementValueView),
    BootstrapMethods(Seq<BootstrapMethodView>),
    MethodParameters(Seq<MethodParameter>),
    RawAttribute { name_index: ConstantPoolIndex, info: Seq<u8> },
}

/// The view of an attribute.
pub open spec fn attr_view(a: Attribute) -> AttributeView
    decreases a,
{
    match a {
        Attribute::ConstantValue(i) => AttributeView::ConstantValue(i),
        Attribute::Code {
            max_stack,
            max_locals,
            code,
            exception_table,
            attributes,
        } => AttributeView::Code {
            max_stack,
            max_locals,
            code: code_view(code@),
            exception_table: exception_table@,
            attributes: Seq::new(
                attributes@.len(),
                |i: int|
                    if 0 <= i < attributes@.len() {
                        attr_view(attributes@[i])
                    } else {
                        AttributeView::Synthetic
                    },
            ),
        },
        Attribute::StackMapTable(frames) => AttributeView::StackMapTable(frames_view(frames@)),
        Attribute::Exceptions(v) => AttributeView::Exceptions(v@),
        Attribute::InnerClass(v) => AttributeView::InnerClass(v@),
        Attribute::EnclosingMethod { class_index, method_index } => AttributeView::EnclosingMethod {
            class_index,
            method_index,
        },
        Attribute::Synthetic => AttributeView::Synthetic,
        Attribute::Signature(i) => AttributeView::Signature(i),
        Attribute::SourceFile(i) => AttributeView::SourceFile(i),
        Attribute::SourceDebugExtension(v) => AttributeView::SourceDebugExtension(v@),
        Attribute::LineNumbeTable(v) => AttributeView::LineNumbeTable(v@),
        Attribute::LocalVariableTable(v) => AttributeView::LocalVariableTable(v@),
        Attribute::LocalVariableTableType(v) => AttributeView::LocalVariableTableType(v@),
        Attribute::Deprecated => AttributeView::Deprecated,
        Attribute::RuntimeVisibleAnnotations(v) => AttributeView::RuntimeVisibleAnnotations(
            annotations_view(v@),
        ),
        Attribute::RuntimeInvisibleAnnotations(v) => AttributeView::RuntimeInvisibleAnnotations(
            annotations_view(v@),
        ),
        Attribute::RuntimeVisibleParameterAnnotations(
            v,
        ) => AttributeView::RuntimeVisibleParameterAnnotations(parameters_view(v@)),
        Attribute::RuntimeInvisibleParameterAnnotations(
            v,
        ) => AttributeView::RuntimeInvisibleParameterAnnotations(parameters_view(v@)),
        Attribute::RuntimeVisibleTypeAnnotations(v) => AttributeView::RuntimeVisibleTypeAnnotations(
            type_annotations_view(v@),
        ),
        Attribute::RuntimeInvisibleTypeAnnotations(
            v,
        ) => AttributeView::RuntimeInvisibleTypeAnnotations(type_annotations_view(v@)),
        Attribute::AnnotationDefault(v) => AttributeView::AnnotationDefault(value_view(v)),
        Attribute::BootstrapMethods(v) => AttributeView::BootstrapMethods(bootstrap_view(v@)),
        Attribute::MethodParameters(v) => AttributeView::MethodParameters(v@),
        Attribute::RawAttribute { name_index, info } => AttributeView::RawAttribute {
            name_index,
            info: info@,
        },
    }
}

impl View for Attribute {
    type V = AttributeView;

    open spec fn view(&self) -> AttributeView {
        attr_view(*self)
    }
}

/// The views of a list of attributes, in order.
pub open spec fn attrs_view(s: Seq<Attribute>) -> Seq<AttributeView> {
    s.map_values(|a: Attribute| attr_view(a))
}

/// The views of a list of instructions, in order.
pub open spec fn code_view(s: Seq<Instruction>) -> Seq<Insn> {
    s.map_values(|i: Instruction| i@)
}

/// The attributes nested in a `Code` attribute are viewed like any list of
/// attributes.
pub proof fn lemma_code_attributes_view(a: Attribute)
    ensures
        a matches Attribute::Code { attributes, .. } ==> a@ matches AttributeView::Code {
            attributes: views,
            ..
        } && views == attrs_view(attributes@),
{
    match a {
        Attribute::Code { attributes, .. } => {
            assert(a@->Code_attributes =~= attrs_view(attributes@));
        },
        _ => {},
    }
}

/// One frame of a stack map table. A frame holds what its kind needs:
/// every kind but `SameFrame`, and `FutureUse`, which stands for the frame
/// types that are reserved, holds an offset delta.
#[derive(Clone, Debug, PartialEq, Eq)]
pub enum StackMapFrame {
    SameFrame,
    SameLocals1StackItemFrame { offset_delta: u16, stack: VerificationType },
    SameLocals1StackItemFrameExtended { offset_delta: u16, stack: VerificationType },
    ChopFrame { offset_delta: u16 },
    SameFrameExtended { offset_delta: u16 },
    AppendFrame { offset_delta: u16, locals: Vec<VerificationType> },
    FullFrame { offset_delta: u16, locals: Vec<VerificationType>, stack: Vec<VerificationType> },
    FutureUse,
}

/// The view of a [`StackMapFrame`].
pub enum StackMapFrameView {
    SameFrame,
    SameLocals1StackItemFrame { offset_delta: u16, stack: VerificationType },
    SameLocals1StackItemFrameExtended { offset_delta: u16, stack: VerificationType },
    ChopFrame { offset_delta: u16 },
    SameFrameExtended { offset_delta: u16 },
    AppendFrame { offset_delta: u16, locals: Seq<VerificationType> },
    FullFrame { offset_delta: u16, locals: Seq<VerificationType>, stack: Seq<VerificationType> },
    FutureUse,
}

impl View for StackMapFrame {
    type V = StackMapFrameView;

    open spec fn view(&self) -> StackMapFrameView {
        match *self {
            StackMapFrame::SameFrame => StackMapFrameView::SameFrame,
            StackMapFrame::SameLocals1StackItemFrame {
                offset_delta,
                stack,
            } => StackMapFrameView::SameLocals1StackItemFrame { offset_delta, stack },
            StackMapFrame::SameLocals1StackItemFrameExtended {
                offset_delta,
                stack,
            } => StackMapFrameView::SameLocals1StackItemFrameExtended { offset_delta, stack },
            StackMapFrame::ChopFrame { offset_delta } => StackMapFrameView::ChopFrame { offset_delta },
            StackMapFrame::SameFrameExtended { offset_delta } => StackMapFrameView::SameFrameExtended {
                offset_delta,
            },
            StackMapFrame::AppendFrame { offset_delta, locals } => StackMapFrameView::AppendFrame {
                offset_delta,
                locals: locals@,
            },
            StackMapFrame::FullFrame { offset_delta, locals, stack } => StackMapFrameView::FullFrame {
                offset_delta,
                locals: locals@,
                stack: stack@,
            },
            StackMapFrame::FutureUse => StackMapFrameView::FutureUse,
        }
    }
}

impl StackMapFrameView {
    /// The offset delta that the frame holds.
    pub open spec fn offset_delta(self) -> Option<u16> {
        match self {
            StackMapFrameView::SameFrame => None,
            StackMapFrameView::SameLocals1StackItemFrame { offset_delta, .. } => Some(offset_delta),
            StackMapFrameView::SameLocals1StackItemFrameExtended { offset_delta, .. } => Some(
                offset_delta,
            ),
            StackMapFrameView::ChopFrame { offset_delta } => Some(offset_delta),
            StackMapFrameView::SameFrameExtended { offset_delta } => Some(offset_delta),
            StackMapFrameView::AppendFrame { offset_delta, .. } => Some(offset_delta),
            StackMapFrameView::FullFrame { offset_delta, .. } => Some(offset_delta),
            StackMapFrameView::FutureUse => None,
        }
    }
}

impl StackMapFrame {
    /// The offset delta that the frame holds: every frame holds one but
    /// `SameFrame` and `FutureUse`.
    pub fn offset_delta(&self) -> (r: Option<u16>)
        ensures
            r == self@.offset_delta(),
            r is None <==> self is SameFrame || self is FutureUse,
    {
        match self {
            StackMapFrame::SameFrame => None,
            StackMapFrame::SameLocals1StackItemFrame { offset_delta, .. } => Some(*offset_delta),
            StackMapFrame::SameLocals1StackItemFrameExtended { offset_delta, .. } => Some(
                *offset_delta,
            ),
            StackMapFrame::ChopFrame { offset_delta } => Some(*offset_delta),
            StackMapFrame::SameFrameExtended { offset_delta } => Some(*offset_delta),
            StackMapFrame::AppendFrame { offset_delta, .. } => Some(*offset_delta),
            StackMapFrame::FullFrame { offset_delta, .. } => Some(*offset_delta),
            StackMapFrame::FutureUse => None,
        }
    }
}

/// The views of a list of frames, in order.
pub open spec fn frames_view(s: Seq<StackMapFrame>) -> Seq<StackMapFrameView> {
    s.map_values(|f: StackMapFrame| f@)
}

/// The type of a local variable or of a stack item in a stack map frame.
#[derive(Clone, Copy, Debug, PartialEq, Eq, Structural)]
pub enum VerificationType {
    Top,
    Integer,
    Float,
    Long,
    Double,
    Null,
    Uninitializedthis,
    Object { cpool_index: ConstantPoolIndex },
    Uninitialized { offset: u16 },
}

/// One entry of the exception table of a `Code` attribute.
#[derive(Clone, Copy, Debug, PartialEq, Eq, Structural)]
pub struct ExceptionHandler {
    pub start_pc: u16,
    pub end_pc: u16,
    pub handler_pc: u16,
    pub catch_type: ConstantPoolIndex,
}

/// One entry of an `InnerClasses` attribute.
#[derive(Clone, Copy, Debug, PartialEq, Eq, Structural)]
pub struct InnerClass {
    pub inner_class_info_index: ConstantPoolIndex,
    pub outer_class_info_index: ConstantPoolIndex,
    pub inner_name_index: ConstantPoolIndex,
    pub access_flags: AccessFlags,
}

/// One entry of a `LineNumberTable` attribute.
#[derive(Clone, Copy, Debug, PartialEq, Eq, Structural)]
pub struct LineNumberTable {
    pub start_pc: u16,
    pub line_number: u16,
}

/// One entry of a `LocalVariableTable` attribute.
#[derive(Clone, Copy, Debug, PartialEq, Eq, Structural)]
pub struct LocalVariableTable {
    pub start_pc: u16,
    pub length: u16,
    pub name_index: ConstantPoolIndex,
    pub descriptor_index: ConstantPoolIndex,
    pub index: u16,
}

/// One entry of a `LocalVariableTypeTable` attribute.
#[derive(Clone, Copy, Debug, PartialEq, Eq, Structural)]
pub struct LocalVariableTableType {
    pub start_pc: u16,
    pub length: u16,
    pub name_index: ConstantPoolIndex,
    pub signature_index: ConstantPoolIndex,
    pub index: u16,
}

/// An annotation: the index of its type, and its elements by name.
#[derive(Debug, PartialEq, Eq)]
pub struct Annotation {
    pub type_index: ConstantPoolIndex,
    pub element_value_pairs: Vec<ElementValuePair>,
}

/// An element of an annotation: the index of its name, and its value.
#[derive(Debug, PartialEq, Eq)]
pub struct ElementValuePair {
    pub element_name_index: ConstantPoolIndex,
    pub value: ElementValue,
}

/// The value of an element of an annotation.
#[derive(Debug, PartialEq, Eq)]
pub enum ElementValue {
    ConstantValue(ConstantPoolIndex),
    Enum { type_name_index: ConstantPoolIndex, const_name_index: ConstantPoolIndex },
    ClassInfo(ConstantPoolIndex),
    Annotation(Annotation),
    Array(Vec<ElementValue>),
}

/// The view of an [`Annotation`].
pub struct AnnotationView {
    pub type_index: ConstantPoolIndex,
    pub element_value_pairs: Seq<ElementValuePairView>,
}

/// The view of an [`ElementValuePair`].
pub struct ElementValuePairView {
    pub element_name_index: ConstantPoolIndex,
    pub value: ElementValueView,
}

/// The view of an [`ElementValue`].
pub enum ElementValueView {
    ConstantValue(ConstantPoolIndex),
    Enum { type_name_index: ConstantPoolIndex, const_name_index: ConstantPoolIndex },
    ClassInfo(ConstantPoolIndex),
    Annotation(AnnotationView),
    Array(Seq<ElementValueView>),
}

/// The view of an element value.
pub open spec fn value_view(v: ElementValue) -> ElementValueView
    decreases v,
{
    match v {
        ElementValue::ConstantValue(i) => ElementValueView::ConstantValue(i),
        ElementValue::Enum { type_name_index, const_name_index } => ElementValueView::Enum {
            type_name_index,
            const_name_index,
        },
        ElementValue::ClassInfo(i) => ElementValueView::ClassInfo(i),
        ElementValue::Annotation(a) => ElementValueView::Annotation(annotation_view(a)),
        ElementValue::Array(values) => ElementValueView::Array(
            Seq::new(
                values@.len(),
                |i: int|
                    if 0 <= i < values@.len() {
                        value_view(values@[i])
                    } else {
                        ElementValueView::ConstantValue(ConstantPoolIndex { idx: 0 })
                    },
            ),
        ),
    }
}

/// The view of an annotation.
pub open spec fn annotation_view(a: Annotation) -> AnnotationView
    decreases a,
{
    AnnotationView {
        type_index: a.type_index,
        element_value_pairs: Seq::new(
            a.element_value_pairs@.len(),
            |i: int|
                if 0 <= i < a.element_value_pairs@.len() {
                    pair_view(a.element_value_pairs@[i])
                } else {
                    ElementValuePairView {
                        element_name_index: ConstantPoolIndex { idx: 0 },
                        value: ElementValueView::ConstantValue(ConstantPoolIndex { idx: 0 }),
                    }
                },
        ),
    }
}

/// The view of a pair of an annotation.
pub open spec fn pair_view(p: ElementValuePair) -> ElementValuePairView
    decreases p,
{
    ElementValuePairView { element_name_index: p.element_name_index, value: value_view(p.value) }
}

impl View for ElementValue {
    type V = ElementValueView;

    open spec fn view(&self) -> ElementValueView {
        value_view(*self)
    }
}

impl View for Annotation {
    type V = AnnotationView;

    open spec fn view(&self) -> AnnotationView {
        annotation_view(*self)
    }
}

impl View for ElementValuePair {
    type V = ElementValuePairView;

    open spec fn view(&self) -> ElementValuePairView {
        pair_view(*self)
    }
}

/// The views of a list of element values, in order.
pub open spec fn values_view(s: Seq<ElementValue>) -> Seq<ElementValueView> {
    s.map_values(|v: ElementValue| value_view(v))
}

/// The views of a list of pairs, in order.
pub open spec fn pairs_view(s: Seq<ElementValuePair>) -> Seq<ElementValuePairView> {
    s.map_values(|p: ElementValuePair| pair_view(p))
}

/// The views of a list of annotations, in order.
pub open spec fn annotations_view(s: Seq<Annotation>) -> Seq<AnnotationView> {
    s.map_values(|a: Annotation| annotation_view(a))
}

/// The views of the annotations of a list of parameters, in order.
pub open spec fn parameters_view(s: Seq<Vec<Annotation>>) -> Seq<Seq<AnnotationView>> {
    s.map_values(|v: Vec<Annotation>| annotations_view(v@))
}

/// The values of an array are viewed like any list of values.
pub proof fn lemma_array_view(v: ElementValue)
    ensures
        v matches ElementValue::Array(values) ==> v@ == ElementValueView::Array(values_view(values@)),
{
    match v {
        ElementValue::Array(values) => {
            assert(v@->Array_0 =~= values_view(values@));
        },
        _ => {},
    }
}

/// The pairs of an annotation are viewed like any list of pairs.
pub proof fn lemma_annotation_view(a: Annotation)
    ensures
        a@.element_value_pairs == pairs_view(a.element_value_pairs@),
{
    assert(a@.element_value_pairs =~= pairs_view(a.element_value_pairs@));
}

/// The view of a [`TypeAnnotation`].
pub struct TypeAnnotationView {
    pub target_info: TargetInfo,
    pub target_path: Seq<(TypePathKind, u8)>,
    pub type_index: ConstantPoolIndex,
    pub element_value_pairs: Seq<ElementValuePairView>,
}

impl View for TypeAnnotation {
    type V = TypeAnnotationView;

    open spec fn view(&self) -> TypeAnnotationView {
        TypeAnnotationView {
            target_info: self.target_info,
            target_path: self.target_path.path@,
            type_index: self.type_index,
            element_value_pairs: pairs_view(self.element_value_pairs@),
        }
    }
}

/// The views of a list of type annotations, in order.
pub open spec fn type_annotations_view(s: Seq<TypeAnnotation>) -> Seq<TypeAnnotationView> {
    s.map_values(|a: TypeAnnotation| a@)
}

/// An annotation of a type: what it is on, the path to the annotated part of
/// the type, and the annotation.
#[derive(Debug, PartialEq, Eq)]
pub struct TypeAnnotation {
    pub target_info: TargetInfo,
    pub target_path: TypePath,
    pub type_index: ConstantPoolIndex,
    pub element_value_pairs: Vec<ElementValuePair>,
}

/// The kind of thing that a type annotation is on.
#[derive(Clone, Copy, Debug, PartialEq, Eq, Structural)]
pub enum TargetInfo {
    TypeParameter,
    SuperType,
    TypeParameterBound,
    Empty,
    MethodFormalParameter,
    Throws,
    LocalVar,
    Catch,
    Offset,
    TypeArgument,
}

/// The path from a type to the part of it that is annotated.
#[derive(Clone, Debug, PartialEq, Eq)]
pub struct TypePath {
    pub path: Vec<(TypePathKind, u8)>,
}

/// One step of a type path.
#[derive(Clone, Copy, Debug, PartialEq, Eq, Structural)]
pub enum TypePathKind {
    /// The annotation is deeper in an array type.
    Array,
    /// The annotation is deeper in a nested type.
    Nested,
    /// The annotation is on the bound of a wildcard type argument.
    Wildcard,
    /// The annotation is on a type argument of a parameterized type.
    TypeArgument,
}

/// One entry of a `BootstrapMethods` attribute.
#[derive(Clone, Debug, PartialEq, Eq)]
pub struct BootstrapMethod {
    pub bootstrap_method_ref: ConstantPoolIndex,
    pub bootstrap_arguments: Vec<ConstantPoolIndex>,
}

/// The view of a [`BootstrapMethod`].
pub struct BootstrapMethodView {
    pub bootstrap_method_ref: ConstantPoolIndex,
    pub bootstrap_arguments: Seq<ConstantPoolIndex>,
}

impl View for BootstrapMethod {
    type V = BootstrapMethodView;

    open spec fn view(&self) -> BootstrapMethodView {
        BootstrapMethodView {
            bootstrap_method_ref: self.bootstrap_method_ref,
            bootstrap_arguments: self.bootstrap_arguments@,
        }
    }
}

/// One entry of a `MethodParameters` attribute.
#[derive(Clone, Copy, Debug, PartialEq, Eq, Structural)]
pub struct MethodParameter {
    pub name_index: ConstantPoolIndex,
    pub access_flags: AccessFlags,
}

/// The views of a list of bootstrap methods, in order.
pub open spec fn bootstrap_view(s: Seq<BootstrapMethod>) -> Seq<BootstrapMethodView> {
    s.map_values(|m: BootstrapMethod| m@)
}

/// The view of an [`Instruction`]: its opcode and its operands. `a` holds
/// the first operand (for a signed one, its bit pattern), `b` the second,
/// and `pairs` the pairs of a `LOOKUPSWITCH`. What an instruction does not
/// have is zero or empty.
pub struct Insn {
    pub op: u8,
    pub a: u32,
    pub b: u8,
    pub pairs: Seq<(i32, i32)>,
}

/// One bytecode instruction. An instruction is laid out as its opcode and
/// the operands that its variant holds, each as wide as its type, and an
/// operand is held as the class file holds it: branch offsets are not
/// resolved. `TABLESWITCH` and `WIDE` hold no operands and have no layout.
#[allow(non_camel_case_types)]
#[derive(Clone, Debug, PartialEq, Eq)]
pub enum Instruction {
    AALOAD,
    AASTORE,
    ACONST_NULL,
    ALOAD(u8),
    ALOAD_0,
    ALOAD_1,
    ALOAD_2,
    ALOAD_3,
    ANEWARRAY(u16),
    ARETURN,
    ARRAYLENGTH,
    ASTORE(u8),
    ASTORE_0,
    ASTORE_1,
    ASTORE_2,
    ASTORE_3,
    ATHROW,
    BALOAD,
    BASTORE,
    BIPUSH,
    CALOAD,
    CASTORE,
    CHECKCAST(u16),
    D2F,
    D2I,
    D2L,
    DADD,
    DALOAD,
    DASTORE,
    DCMPL,
    DCMPG,
    DCONST_0,
    DCONST_1,
    DDIV,
    DLOAD(u8),
    DLOAD_0,
    DLOAD_1,
    DLOAD_2,
    DLOAD_3,
    DMUL,
    DNEG,
    DREM,
    DRETURN,
    DSTORE(u8),
    DSTORE_0,
    DSTORE_1,
    DSTORE_2,
    DSTORE_3,
    DSUB,
    DUP,
    DUP_X1,
    DUP_X2,
    DUP2,
    DUP2_X1,
    DUP2_X2,
    F2D,
    F2I,
    F2L,
    FADD,
    FALOAD,
    FASTORE,
    FCMPL,
    FCMPG,
    FCONST_0,
    FCONST_1,
    FCONST_2,
    FDIV,
    FLOAD(u8),
    FLOAD_0,
    FLOAD_1,
    FLOAD_2,
    FLOAD_3,
    FMUL,
    FNEG,
    FREM,
    FRETURN,
    FSTORE(u8),
    FSTORE_0,
    FSTORE_1,
    FSTORE_2,
    FSTORE_3,
    FSUB,
    GETFIELD(u16),
    GETSTATIC(u16),
    GOTO(u16),
    GOTO_W(u32),
    I2B,
    I2C,
    I2D,
    I2F,
    I2L,
    I2S,
    IADD,
    IALOAD,
    IAND,
    IASTORE,
    ICONST_M1,
    ICONST_0,
    ICONST_1,
    ICONST_2,
    ICONST_3,
    ICONST_4,
    ICONST_5,
    IDIV,
    IF_ACMPEQ(u16),
    IF_ACMPNE(u16),
    IF_ICMPEQ(u16),
    IF_ICMPNE(u16),
    IF_ICMPLT(u16),
    IF_ICMPGE(u16),
    IF_ICMPGT(u16),
    IF_ICMPLE(u16),
    IFEQ(u16),
    IFNE(u16),
    IFLT(u16),
    IFGE(u16),
    IFGT(u16),
    IFLE(u16),
    IFNONNULL(u16),
    IFNULL(u16),
    IINC(u8, i8),
    ILOAD(u8),
    ILOAD_0,
    ILOAD_1,
    ILOAD_2,
    ILOAD_3,
    IMUL,
    INEG,
    INSTANCEOF(u16),
    INVOKEDYNAMIC(u16),
    INVOKEINTERFACE(u16, u8),
    INVOKESPECIAL(u16),
    INVOKESTATIC(u16),
    INVOKEVIRTUAL(u16),
    IOR,
    IREM,
    IRETURN,
    ISHL,
    ISHR,
    ISTORE(u8),
    ISTORE_0,
    ISTORE_1,
    ISTORE_2,
    ISTORE_3,
    ISUB,
    IUSHR,
    IXOR,
    JSR(u16),
    JSR_W(u32),
    L2D,
    L2F,
    L2I,
    LADD,
    LALOAD,
    LAND,
    LASTORE,
    LCMP,
    LCONST_0,
    LCONST_1,
    LDC(u8),
    LDC_W(u16),
    LDC2_W(u16),
    LDIV,
    LLOAD,
    LLOAD_0,
    LLOAD_1,
    LLOAD_2,
    LLOAD_3,
    LMUL,
    LNEG,
    LOOKUPSWITCH(i32, Vec<(i32, i32)>),
    LOR,
    LREM,
    LRETURN,
    LSHL,
    LSHR,
    LSTORE(u8),
    LSTORE_0,
    LSTORE_1,
    LSTORE_2,
    LSTORE_3,
    LSUB,
    LUSHR,
    LXOR,
    MONITORENTER,
    MONITOREXIT,
    MULTIANEWARRAY(u16, u8),
    NEW(u16),
    NEWARRAY(u8),
    NOP,
    POP,
    POP2,
    PUTFIELD(u16),
    PUTSTATIC(u16),
    RET(u8),
    RETURN,
    SALOAD,
    SASTORE,
    SIPUSH(u16),
    SWAP,
    TABLESWITCH,
    WIDE,
}

impl Instruction {
    /// The declared length of the instruction in bytes: 1 for an opcode
    /// without operands, 1 and the width of the operands for the others,
    /// and `5 + 4 * pairs.len()` for `LOOKUPSWITCH`.
    pub fn len(&self) -> (r: usize)
        requires
            self matches Instruction::LOOKUPSWITCH(_, pairs) ==> 5 + 4 * pairs@.len() <= usize::MAX,
        ensures
            r == declared_len(self@),
    {
        match self {
            Instruction::ALOAD(_) => 2,
            Instruction::ANEWARRAY(_) => 3,
            Instruction::ASTORE(_) => 2,
            Instruction::CHECKCAST(_) => 3,
            Instruction::DLOAD(_) => 2,
            Instruction::DSTORE(_) => 2,
            Instruction::FLOAD(_) => 2,
            Instruction::FSTORE(_) => 2,
            Instruction::GETFIELD(_) => 3,
            Instruction::GETSTATIC(_) => 3,
            Instruction::GOTO(_) => 3,
            Instruction::GOTO_W(_) => 5,
            Instruction::IF_ACMPEQ(_) => 3,
            Instruction::IF_ACMPNE(_) => 3,
            Instruction::IF_ICMPEQ(_) => 3,
            Instruction::IF_ICMPNE(_) => 3,
            Instruction::IF_ICMPLT(_) => 3,
            Instruction::IF_ICMPGE(_) => 3,
            Instruction::IF_ICMPGT(_) => 3,
            Instruction::IF_ICMPLE(_) => 3,
            Instruction::IFEQ(_) => 3,
            Instruction::IFNE(_) => 3,
            Instruction::IFLT(_) => 3,
            Instruction::IFGE(_) => 3,
            Instruction::IFGT(_) => 3,
            Instruction::IFLE(_) => 3,
            Instruction::IFNONNULL(_) => 3,
            Instruction::IFNULL(_) => 3,
            Instruction::IINC(_, _) => 3,
            Instruction::ILOAD(_) => 2,
            Instruction::INSTANCEOF(_) => 3,
            Instruction::INVOKEDYNAMIC(_) => 3,
            Instruction::INVOKEINTERFACE(_, _) => 4,
            Instruction::INVOKESPECIAL(_) => 3,
            Instruction::INVOKESTATIC(_) => 3,
            Instruction::INVOKEVIRTUAL(_) => 3,
            Instruction::ISTORE(_) => 2,
            Instruction::JSR(_) => 3,
            Instruction::JSR_W(_) => 5,
            Instruction::LDC(_) => 2,
            Instruction::LDC_W(_) => 3,
            Instruction::LDC2_W(_) => 3,
            Instruction::LSTORE(_) => 2,
            Instruction::MULTIANEWARRAY(_, _) => 4,
            Instruction::NEW(_) => 3,
            Instruction::NEWARRAY(_) => 2,
            Instruction::PUTFIELD(_) => 3,
            Instruction::PUTSTATIC(_) => 3,
            Instruction::RET(_) => 2,
            Instruction::SIPUSH(_) => 3,
            Instruction::LOOKUPSWITCH(_, pairs) => 5 + pairs.len() * 4,
            _ => 1,
        }
    }
}

} // verus!
