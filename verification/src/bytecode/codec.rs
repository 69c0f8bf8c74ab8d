//! The codec of a whole class file.
//!
//! A class file is the magic number and the version, the constant pool,
//! the access flags with the indices of the class and of its superclass,
//! the interfaces, the fields, the methods and the attributes of the class,
//! in this order and with nothing after them.
use vstd::prelude::*;
use crate::bytecode::attr::dec_attrs;
use crate::bytecode::attr::enc_attrs;
use crate::bytecode::attr::read_attrs;
use crate::bytecode::attr::write_attrs;
use crate::bytecode::classfile::AccessFlags;
use crate::bytecode::classfile::Classfile;
use crate::bytecode::classfile::ClassfileVersion;
use crate::bytecode::classfile::ClassfileView;
use crate::bytecode::classfile::ConstantPool;
use crate::bytecode::classfile::ConstantPoolIndex;
use crate::bytecode::classfile::ConstantView;
use crate::bytecode::member::dec_members;
use crate::bytecode::member::enc_members;
use crate::bytecode::member::read_fields;
use crate::bytecode::member::read_methods;
use crate::bytecode::member::write_fields;
use crate::bytecode::member::write_methods;
use crate::bytecode::pool::dec_pool;
use crate::bytecode::pool::enc_index;
use crate::bytecode::pool::enc_pool;
use crate::bytecode::pool::read_pool;
use crate::bytecode::pool::write_pool;
use crate::bytecode::record::dec_counted;
use crate::bytecode::record::enc_counted;
use crate::bytecode::record::read_counted;
use crate::bytecode::record::write_counted;
use crate::bytecode::wire::Fault;
use crate::bytecode::wire::FaultKind;
use crate::bytecode::wire::Flaw;
use crate::bytecode::wire::appended;
use crate::bytecode::wire::be16;
use crate::bytecode::wire::fault;
use crate::bytecode::wire::peek_u16;
use crate::bytecode::wire::put_u16;
use crate::bytecode::wire::put_u8;
use crate::bytecode::wire::then;
use crate::bytecode::wire::truncated;
use crate::bytecode::wire::word16;

verus! {

/// The sections of a class file.
#[derive(Clone, Copy, Debug, PartialEq, Eq, Structural)]
pub enum Section {
    /// The magic number and the version.
    Header,
    ConstantPool,
    /// The access flags and the indices of the class and its superclass.
    ClassInfo,
    Interfaces,
    Fields,
    Methods,
    /// The attributes of the class.
    Attributes,
}

/// Why bytes are no class file: what is wrong, in which section, and at
/// which offset of the input.
#[derive(Clone, Copy, Debug, PartialEq, Eq, Structural)]
pub struct DecodeError {
    pub section: Section,
    pub kind: FaultKind,
    pub offset: usize,
}

/// Why a class file has no encoding: what is wrong, and in which section.
#[derive(Clone, Copy, Debug, PartialEq, Eq, Structural)]
pub struct EncodeError {
    pub section: Section,
    pub flaw: Flaw,
}

/// The fault `f`, found in `section`.
pub open spec fn located(section: Section, f: Fault) -> DecodeError {
    DecodeError { section, kind: f.kind, offset: f.offset }
}

/// The encoding `r` of a section, with its flaw laid to `section`.
pub open spec fn of_section(section: Section, r: Result<Seq<u8>, Flaw>) -> Result<
    Seq<u8>,
    EncodeError,
> {
    match r {
        Ok(e) => Ok(e),
        Err(flaw) => Err(EncodeError { section, flaw }),
    }
}

/// The bytes `s` start with `CA FE BA BE`.
pub open spec fn has_magic(s: Seq<u8>) -> bool {
    s.len() >= 4 && s[0] == 0xCA && s[1] == 0xFE && s[2] == 0xBA && s[3] == 0xBE
}

/// The magic number and the version: the minor number first.
pub open spec fn enc_header(version: ClassfileVersion) -> Seq<u8> {
    seq![0xCAu8, 0xFEu8, 0xBAu8, 0xBEu8] + be16(version.minor_version) + be16(version.major_version)
}

/// The access flags and the indices of the class and of its superclass.
pub open spec fn enc_class_info(c: ClassfileView) -> Result<Seq<u8>, Flaw> {
    then(Ok(be16(c.access_flags.flags)), then(enc_index(c.this_class), enc_index(c.super_class)))
}

/// The header and the encodings of the six sections that follow it, one
/// after the other; the first flaw where a section has one.
#[verifier::opaque]
pub open spec fn assemble(
    header: Seq<u8>,
    pool: Result<Seq<u8>, Flaw>,
    class_info: Result<Seq<u8>, Flaw>,
    interfaces: Result<Seq<u8>, Flaw>,
    fields: Result<Seq<u8>, Flaw>,
    methods: Result<Seq<u8>, Flaw>,
    attributes: Result<Seq<u8>, Flaw>,
) -> Result<Seq<u8>, EncodeError> {
    then(
        Ok(header),
        then(
            of_section(Section::ConstantPool, pool),
            then(
                of_section(Section::ClassInfo, class_info),
                then(
                    of_section(Section::Interfaces, interfaces),
                    then(
                        of_section(Section::Fields, fields),
                        then(
                            of_section(Section::Methods, methods),
                            of_section(Section::Attributes, attributes),
                        ),
                    ),
                ),
            ),
        ),
    )
}

/// The bytes of a class file, or the first reason why it has none.
pub open spec fn enc_classfile(c: ClassfileView) -> Result<Seq<u8>, EncodeError> {
    assemble(
        enc_header(c.version),
        enc_pool(c.constant_pool),
        enc_class_info(c),
        enc_counted(c.interfaces),
        enc_members(c.constant_pool, c.fields),
        enc_members(c.constant_pool, c.methods),
        enc_attrs(c.constant_pool, c.attributes),
    )
}

/// What [`assemble`] gives where the first `n` sections of `r` have an
/// encoding and the next one has none.
proof fn lemma_assemble_flaw(
    header: Seq<u8>,
    r: Seq<Result<Seq<u8>, Flaw>>,
    n: int,
)
    requires
        r.len() == 6,
        0 <= n < 6,
        forall|i: int| 0 <= i < n ==> (#[trigger] r[i]) is Ok,
        r[n] is Err,
    ensures
        assemble(header, r[0], r[1], r[2], r[3], r[4], r[5]) == Err::<Seq<u8>, EncodeError>(
            EncodeError { section: section_at(n), flaw: r[n]->Err_0 },
        ),
{
    reveal(assemble);
    if n > 0 {
        assert(r[0] is Ok);
    }
    if n > 1 {
        assert(r[1] is Ok);
    }
    if n > 2 {
        assert(r[2] is Ok);
    }
    if n > 3 {
        assert(r[3] is Ok);
    }
    if n > 4 {
        assert(r[4] is Ok);
    }
}

/// The section that follows `n` others after the header.
pub open spec fn section_at(n: int) -> Section {
    if n == 0 {
        Section::ConstantPool
    } else if n == 1 {
        Section::ClassInfo
    } else if n == 2 {
        Section::Interfaces
    } else if n == 3 {
        Section::Fields
    } else if n == 4 {
        Section::Methods
    } else {
        Section::Attributes
    }
}

/// Where [`assemble`] gives bytes, every section has an encoding, and the
/// bytes are the header and those encodings in order.
pub proof fn lemma_assemble_parts(
    header: Seq<u8>,
    r1: Result<Seq<u8>, Flaw>,
    r2: Result<Seq<u8>, Flaw>,
    r3: Result<Seq<u8>, Flaw>,
    r4: Result<Seq<u8>, Flaw>,
    r5: Result<Seq<u8>, Flaw>,
    r6: Result<Seq<u8>, Flaw>,
)
    ensures
        assemble(header, r1, r2, r3, r4, r5, r6) is Ok <==> r1 is Ok && r2 is Ok && r3 is Ok && r4 is Ok
            && r5 is Ok && r6 is Ok,
        assemble(header, r1, r2, r3, r4, r5, r6) is Ok ==> assemble(header, r1, r2, r3, r4, r5, r6)->Ok_0
            == header + (r1->Ok_0 + (r2->Ok_0 + (r3->Ok_0 + (r4->Ok_0 + (r5->Ok_0 + r6->Ok_0))))),
{
    reveal(assemble);
}

/// What [`assemble`] gives where every section has an encoding.
proof fn lemma_assemble_whole(
    header: Seq<u8>,
    e1: Seq<u8>,
    e2: Seq<u8>,
    e3: Seq<u8>,
    e4: Seq<u8>,
    e5: Seq<u8>,
    e6: Seq<u8>,
)
    ensures
        assemble(header, Ok(e1), Ok(e2), Ok(e3), Ok(e4), Ok(e5), Ok(e6)) == Ok::<Seq<u8>, EncodeError>(
            header + e1 + e2 + e3 + e4 + e5 + e6,
        ),
{
    reveal(assemble);
    assert(header + (e1 + (e2 + (e3 + (e4 + (e5 + e6))))) =~= header + e1 + e2 + e3 + e4 + e5 + e6);
}

/// What follows the constant pool, which ends at `p`.
#[verifier::opaque]
pub open spec fn dec_body(
    version: ClassfileVersion,
    pool: Seq<ConstantView>,
    s: Seq<u8>,
    p: int,
) -> Result<ClassfileView, DecodeError> {
    let end = s.len() as int;
    if p + 6 > end {
        Err(located(Section::ClassInfo, truncated(p)))
    } else {
        match dec_counted::<ConstantPoolIndex>(s, p + 6, end) {
            Err(f) => Err(located(Section::Interfaces, f)),
            Ok((interfaces, at_fields)) => match dec_members(pool, s, at_fields, end) {
                Err(f) => Err(located(Section::Fields, f)),
                Ok((fields, at_methods)) => match dec_members(pool, s, at_methods, end) {
                    Err(f) => Err(located(Section::Methods, f)),
                    Ok((methods, at_attributes)) => match dec_attrs(pool, s, at_attributes, end) {
                        Err(f) => Err(located(Section::Attributes, f)),
                        Ok((attributes, stop)) => if stop != end {
                            Err(located(Section::Attributes, fault(FaultKind::TrailingBytes, stop)))
                        } else {
                            Ok(
                                ClassfileView {
                                    version,
                                    constant_pool: pool,
                                    access_flags: AccessFlags { flags: word16(s, p) },
                                    this_class: ConstantPoolIndex { idx: word16(s, p + 2) as usize },
                                    super_class: ConstantPoolIndex { idx: word16(s, p + 4) as usize },
                                    interfaces,
                                    fields,
                                    methods,
                                    attributes,
                                },
                            )
                        },
                    },
                },
            },
        }
    }
}

/// The class file that the bytes `s` hold, or the first reason why they
/// hold none.
pub open spec fn dec_classfile(s: Seq<u8>) -> Result<ClassfileView, DecodeError> {
    let end = s.len() as int;
    if end < 4 {
        Err(located(Section::Header, truncated(0)))
    } else if !has_magic(s) {
        Err(located(Section::Header, fault(FaultKind::BadMagic, 0)))
    } else if end < 8 {
        Err(located(Section::Header, truncated(4)))
    } else {
        let version = ClassfileVersion { major_version: word16(s, 6), minor_version: word16(s, 4) };
        match dec_pool(s, 8, end) {
            Err(f) => Err(located(Section::ConstantPool, f)),
            Ok((pool, p)) => dec_body(version, pool, s, p),
        }
    }
}

/// The fault `f`, found in `section`.
fn locate(section: Section, f: Fault) -> (r: DecodeError)
    ensures
        r == located(section, f),
{
    DecodeError { section, kind: f.kind, offset: f.offset }
}

/// Reads what follows the constant pool, which ends at `p`.
fn decode_body(version: ClassfileVersion, pool: ConstantPool, b: &[u8], p: usize) -> (r: Result<
    Classfile,
    DecodeError,
>)
    requires
        p <= b@.len(),
    ensures
        match r {
            Ok(c) => dec_body(version, pool@, b@, p as int) == Ok::<ClassfileView, DecodeError>(c@),
            Err(e) => dec_body(version, pool@, b@, p as int) == Err::<ClassfileView, DecodeError>(e),
        },
{
    reveal(dec_body);
    let end = b.len();
    if end - p < 6 {
        return Err(DecodeError { section: Section::ClassInfo, kind: FaultKind::Truncated, offset: p });
    }
    let flags = peek_u16(b, p);
    let this_class = peek_u16(b, p + 2);
    let super_class = peek_u16(b, p + 4);
    let (interfaces, at_fields) = match read_counted::<ConstantPoolIndex>(b, p + 6, end) {
        Ok(x) => x,
        Err(f) => {
            return Err(locate(Section::Interfaces, f));
        },
    };
    let (fields, at_methods) = match read_fields(&pool, b, at_fields, end) {
        Ok(x) => x,
        Err(f) => {
            return Err(locate(Section::Fields, f));
        },
    };
    let (methods, at_attributes) = match read_methods(&pool, b, at_methods, end) {
        Ok(x) => x,
        Err(f) => {
            return Err(locate(Section::Methods, f));
        },
    };
    let (attributes, stop) = match read_attrs(&pool, b, at_attributes, end) {
        Ok(x) => x,
        Err(f) => {
            return Err(locate(Section::Attributes, f));
        },
    };
    if stop != end {
        return Err(
            DecodeError { section: Section::Attributes, kind: FaultKind::TrailingBytes, offset: stop },
        );
    }
    Ok(
        Classfile {
            version,
            constant_pool: pool,
            access_flags: AccessFlags { flags },
            this_class: ConstantPoolIndex { idx: this_class as usize },
            super_class: ConstantPoolIndex { idx: super_class as usize },
            interfaces,
            fields,
            methods,
            attributes,
        },
    )
}

/// Decodes a class file. The bytes have to hold one class file and nothing
/// else; a failure names the section and the offset at which it was found.
pub fn decode(bytes: &[u8]) -> (r: Result<Classfile, DecodeError>)
    ensures
        match r {
            Ok(c) => dec_classfile(bytes@) == Ok::<ClassfileView, DecodeError>(c@),
            Err(e) => dec_classfile(bytes@) == Err::<ClassfileView, DecodeError>(e),
        },
{
    let end = bytes.len();
    if end < 4 {
        return Err(DecodeError { section: Section::Header, kind: FaultKind::Truncated, offset: 0 });
    }
    if !(bytes[0] == 0xCA && bytes[1] == 0xFE && bytes[2] == 0xBA && bytes[3] == 0xBE) {
        return Err(DecodeError { section: Section::Header, kind: FaultKind::BadMagic, offset: 0 });
    }
    if end < 8 {
        return Err(DecodeError { section: Section::Header, kind: FaultKind::Truncated, offset: 4 });
    }
    let minor_version = peek_u16(bytes, 4);
    let major_version = peek_u16(bytes, 6);
    let version = ClassfileVersion { major_version, minor_version };
    let (constants, p) = match read_pool(bytes, 8, end) {
        Ok(x) => x,
        Err(f) => {
            return Err(locate(Section::ConstantPool, f));
        },
    };
    decode_body(version, ConstantPool::new(constants), bytes, p)
}

/// Appends the bytes of `cf` to `out`. Where the class file has no
/// encoding, `out` is left as it was and the error names the section and
/// what is wrong in it.
pub fn encode(cf: &Classfile, out: &mut Vec<u8>) -> (r: Result<(), EncodeError>)
    ensures
        match enc_classfile(cf@) {
            Ok(e) => r is Ok && final(out)@ == old(out)@ + e,
            Err(x) => r == Err::<(), EncodeError>(x) && final(out)@ == old(out)@,
        },
{
    let pool = &cf.constant_pool;
    let ghost header = enc_header(cf.version);
    let ghost r = seq![
        enc_pool(pool@),
        enc_class_info(cf@),
        enc_counted(cf@.interfaces),
        enc_members(pool@, cf@.fields),
        enc_members(pool@, cf@.methods),
        enc_attrs(pool@, cf@.attributes),
    ];
    assert(enc_classfile(cf@) == assemble(header, r[0], r[1], r[2], r[3], r[4], r[5]));
    let mut buf: Vec<u8> = Vec::new();
    put_u8(&mut buf, 0xCA);
    put_u8(&mut buf, 0xFE);
    put_u8(&mut buf, 0xBA);
    put_u8(&mut buf, 0xBE);
    put_u16(&mut buf, cf.version.minor_version);
    put_u16(&mut buf, cf.version.major_version);
    assert(buf@ =~= header);
    match write_pool(&mut buf, &pool.constants) {
        Ok(()) => {},
        Err(flaw) => {
            proof {
                lemma_assemble_flaw(header, r, 0);
            }
            return Err(EncodeError { section: Section::ConstantPool, flaw });
        },
    }
    match write_class_info(&mut buf, cf) {
        Ok(()) => {},
        Err(flaw) => {
            proof {
                lemma_assemble_flaw(header, r, 1);
            }
            return Err(EncodeError { section: Section::ClassInfo, flaw });
        },
    }
    match write_counted(&mut buf, &cf.interfaces) {
        Ok(()) => {},
        Err(flaw) => {
            proof {
                lemma_assemble_flaw(header, r, 2);
            }
            return Err(EncodeError { section: Section::Interfaces, flaw });
        },
    }
    match write_fields(&mut buf, pool, &cf.fields) {
        Ok(()) => {},
        Err(flaw) => {
            proof {
                lemma_assemble_flaw(header, r, 3);
            }
            return Err(EncodeError { section: Section::Fields, flaw });
        },
    }
    match write_methods(&mut buf, pool, &cf.methods) {
        Ok(()) => {},
        Err(flaw) => {
            proof {
                lemma_assemble_flaw(header, r, 4);
            }
            return Err(EncodeError { section: Section::Methods, flaw });
        },
    }
    match write_attrs(&mut buf, pool, &cf.attributes) {
        Ok(()) => {},
        Err(flaw) => {
            proof {
                lemma_assemble_flaw(header, r, 5);
            }
            return Err(EncodeError { section: Section::Attributes, flaw });
        },
    }
    proof {
        lemma_assemble_whole(
            header,
            r[0]->Ok_0,
            r[1]->Ok_0,
            r[2]->Ok_0,
            r[3]->Ok_0,
            r[4]->Ok_0,
            r[5]->Ok_0,
        );
    }
    out.append(&mut buf);
    Ok(())
}

/// Appends the access flags and the indices of the class and of its
/// superclass.
fn write_class_info(out: &mut Vec<u8>, cf: &Classfile) -> (r: Result<(), Flaw>)
    ensures
        appended(r, enc_class_info(cf@), old(out)@, final(out)@),
{
    if cf.this_class.idx > 0xFFFF || cf.super_class.idx > 0xFFFF {
        return Err(Flaw::IndexOutOfRange);
    }
    put_u16(out, cf.access_flags.flags);
    put_u16(out, cf.this_class.idx as u16);
    put_u16(out, cf.super_class.idx as u16);
    assert(out@ =~= old(out)@ + (be16(cf.access_flags.flags) + (be16(cf.this_class.idx as u16) + be16(
        cf.super_class.idx as u16,
    ))));
    Ok(())
}

} // verus!
