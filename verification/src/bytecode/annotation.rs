//! Annotations, and the values of their elements.
//!
//! The model holds an element value in part: it does not say which of the
//! nine tags a constant was written under, and of a type annotation it
//! holds the kind of the target without the data. The codec therefore
//! keeps the annotation attributes as bytes, and this module reads
//! annotations from those bytes for whoever wants to look at them.
use vstd::prelude::*;
use crate::bytecode::classfile::Annotation;
use crate::bytecode::classfile::AnnotationView;
use crate::bytecode::classfile::ConstantPoolIndex;
use crate::bytecode::classfile::ElementValue;
use crate::bytecode::classfile::ElementValuePair;
use crate::bytecode::classfile::ElementValuePairView;
use crate::bytecode::classfile::ElementValueView;
use crate::bytecode::classfile::TargetInfo;
use crate::bytecode::classfile::TypeAnnotation;
use crate::bytecode::classfile::TypeAnnotationView;
use crate::bytecode::classfile::TypePath;
use crate::bytecode::classfile::TypePathKind;
use crate::bytecode::classfile::annotations_view;
use crate::bytecode::classfile::lemma_annotation_view;
use crate::bytecode::classfile::lemma_array_view;
use crate::bytecode::classfile::pairs_view;
use crate::bytecode::classfile::parameters_view;
use crate::bytecode::classfile::type_annotations_view;
use crate::bytecode::classfile::values_view;
use crate::bytecode::pool::dec_index;
use crate::bytecode::pool::dec_index_pair;
use crate::bytecode::pool::read_index;
use crate::bytecode::pool::read_index_pair;
use crate::bytecode::record::dec_counted8;
use crate::bytecode::record::read_counted8;
use crate::bytecode::wire::Fault;
use crate::bytecode::wire::FaultKind;
use crate::bytecode::wire::agrees;
use crate::bytecode::wire::agrees_plain;
use crate::bytecode::wire::agrees_with;
use crate::bytecode::wire::fault;
use crate::bytecode::wire::get_u16;
use crate::bytecode::wire::get_u8;
use crate::bytecode::wire::in_region;
use crate::bytecode::wire::peek_u16;
use crate::bytecode::wire::prepend;
use crate::bytecode::wire::take_u16;
use crate::bytecode::wire::take_u8;
use crate::bytecode::wire::truncated;
use crate::bytecode::wire::word16;

verus! {

/// The tags of an element value that is a constant: `B`, `C`, `D`, `F`,
/// `I`, `J`, `S`, `Z` and `s`.
pub open spec fn is_const_tag(t: u8) -> bool {
    t == 66 || t == 67 || t == 68 || t == 70 || t == 73 || t == 74 || t == 83 || t == 90 || t == 115
}

/// The element value that starts at `pos`: a tag, and what the tag asks
/// for.
pub open spec fn dec_value(s: Seq<u8>, pos: int, end: int) -> Result<(ElementValueView, int), Fault>
    decreases end - pos, 1int,
{
    match take_u8(s, pos, end) {
        Err(e) => Err(e),
        Ok((t, p)) => if is_const_tag(t) {
            match dec_index(s, p, end) {
                Err(e) => Err(e),
                Ok((i, q)) => Ok((ElementValueView::ConstantValue(i), q)),
            }
        } else if t == 101 {
            // `e`
            match dec_index_pair(s, p, end) {
                Err(e) => Err(e),
                Ok(((type_name_index, const_name_index), q)) => Ok(
                    (ElementValueView::Enum { type_name_index, const_name_index }, q),
                ),
            }
        } else if t == 99 {
            // `c`
            match dec_index(s, p, end) {
                Err(e) => Err(e),
                Ok((i, q)) => Ok((ElementValueView::ClassInfo(i), q)),
            }
        } else if t == 64 {
            // `@`
            match dec_annotation(s, p, end) {
                Err(e) => Err(e),
                Ok((a, q)) => Ok((ElementValueView::Annotation(a), q)),
            }
        } else if t == 91 {
            // `[`
            if p + 2 <= end {
                match dec_value_list(s, p + 2, end, word16(s, p) as int) {
                    Err(e) => Err(e),
                    Ok((values, q)) => Ok((ElementValueView::Array(values), q)),
                }
            } else {
                Err(truncated(p))
            }
        } else {
            Err(fault(FaultKind::UnknownTag, pos))
        },
    }
}

/// The `n` element values that start at `pos`.
pub open spec fn dec_value_list(s: Seq<u8>, pos: int, end: int, n: int) -> Result<
    (Seq<ElementValueView>, int),
    Fault,
>
    decreases end - pos, n + 2,
{
    if n <= 0 {
        Ok((Seq::empty(), pos))
    } else {
        match dec_value(s, pos, end) {
            Err(e) => Err(e),
            // A value takes its first byte at least and stays in the region,
            // so this branch is never taken.
            Ok((v, p)) => if p <= pos || p > end {
                Err(fault(FaultKind::LengthMismatch, pos))
            } else {
                prepend(seq![v], dec_value_list(s, p, end, n - 1))
            },
        }
    }
}

/// The pair that starts at `pos`: the index of the name of an element, and
/// its value.
pub open spec fn dec_pair(s: Seq<u8>, pos: int, end: int) -> Result<(ElementValuePairView, int), Fault>
    decreases end - pos, 1int,
{
    if pos + 2 <= end {
        match dec_value(s, pos + 2, end) {
            Err(e) => Err(e),
            Ok((value, q)) => Ok(
                (
                    ElementValuePairView {
                        element_name_index: ConstantPoolIndex { idx: word16(s, pos) as usize },
                        value,
                    },
                    q,
                ),
            ),
        }
    } else {
        Err(truncated(pos))
    }
}

/// The `n` pairs that start at `pos`.
pub open spec fn dec_pair_list(s: Seq<u8>, pos: int, end: int, n: int) -> Result<
    (Seq<ElementValuePairView>, int),
    Fault,
>
    decreases end - pos, n + 2,
{
    if n <= 0 {
        Ok((Seq::empty(), pos))
    } else {
        match dec_pair(s, pos, end) {
            Err(e) => Err(e),
            // A pair takes its first byte at least and stays in the region,
            // so this branch is never taken.
            Ok((x, p)) => if p <= pos || p > end {
                Err(fault(FaultKind::LengthMismatch, pos))
            } else {
                prepend(seq![x], dec_pair_list(s, p, end, n - 1))
            },
        }
    }
}

/// The annotation that starts at `pos`: the index of its type, a count and
/// as many pairs.
pub open spec fn dec_annotation(s: Seq<u8>, pos: int, end: int) -> Result<(AnnotationView, int), Fault>
    decreases end - pos, 1int,
{
    if pos + 4 <= end {
        match dec_pair_list(s, pos + 4, end, word16(s, pos + 2) as int) {
            Err(e) => Err(e),
            Ok((element_value_pairs, q)) => Ok(
                (
                    AnnotationView {
                        type_index: ConstantPoolIndex { idx: word16(s, pos) as usize },
                        element_value_pairs,
                    },
                    q,
                ),
            ),
        }
    } else {
        Err(truncated(pos))
    }
}

/// The `n` annotations that start at `pos`.
pub open spec fn dec_annotation_list(s: Seq<u8>, pos: int, end: int, n: int) -> Result<
    (Seq<AnnotationView>, int),
    Fault,
>
    decreases n,
{
    if n <= 0 {
        Ok((Seq::empty(), pos))
    } else {
        match dec_annotation(s, pos, end) {
            Err(e) => Err(e),
            Ok((a, p)) => prepend(seq![a], dec_annotation_list(s, p, end, n - 1)),
        }
    }
}

/// A sixteen-bit count and as many annotations.
pub open spec fn dec_annotations(s: Seq<u8>, pos: int, end: int) -> Result<
    (Seq<AnnotationView>, int),
    Fault,
> {
    if pos + 2 <= end {
        dec_annotation_list(s, pos + 2, end, word16(s, pos) as int)
    } else {
        Err(truncated(pos))
    }
}

/// The annotations of `n` parameters, a counted list for each.
pub open spec fn dec_parameter_list(s: Seq<u8>, pos: int, end: int, n: int) -> Result<
    (Seq<Seq<AnnotationView>>, int),
    Fault,
>
    decreases n,
{
    if n <= 0 {
        Ok((Seq::empty(), pos))
    } else {
        match dec_annotations(s, pos, end) {
            Err(e) => Err(e),
            Ok((a, p)) => prepend(seq![a], dec_parameter_list(s, p, end, n - 1)),
        }
    }
}

/// What a payload decoder gave, if it stopped at the end of the payload.
pub open spec fn whole<T>(r: Result<(T, int), Fault>, end: int) -> Result<T, Fault> {
    match r {
        Err(e) => Err(e),
        Ok((v, p)) => if p == end {
            Ok(v)
        } else {
            Err(fault(FaultKind::LengthMismatch, p))
        },
    }
}

/// The annotations that the payload `s` of a `RuntimeVisibleAnnotations`
/// or `RuntimeInvisibleAnnotations` attribute holds.
pub open spec fn dec_annotations_payload(s: Seq<u8>) -> Result<Seq<AnnotationView>, Fault> {
    whole(dec_annotations(s, 0, s.len() as int), s.len() as int)
}

/// The annotations that the payload `s` of a parameter annotations
/// attribute holds: an eight-bit count of parameters, and a counted list
/// of annotations for each.
pub open spec fn dec_parameters_payload(s: Seq<u8>) -> Result<Seq<Seq<AnnotationView>>, Fault> {
    let end = s.len() as int;
    match take_u8(s, 0, end) {
        Err(e) => Err(e),
        Ok((n, p)) => whole(dec_parameter_list(s, p, end, n as int), end),
    }
}

/// The element value that the payload `s` of an `AnnotationDefault`
/// attribute holds.
pub open spec fn dec_default_payload(s: Seq<u8>) -> Result<ElementValueView, Fault> {
    whole(dec_value(s, 0, s.len() as int), s.len() as int)
}

/// Reads the element value that starts at `pos`.
pub fn read_value(b: &[u8], pos: usize, end: usize) -> (r: Result<(ElementValue, usize), Fault>)
    requires
        in_region(b@, pos as int, end as int),
    ensures
        agrees(r, dec_value(b@, pos as int, end as int), pos, end),
        r matches Ok((_, p)) ==> p > pos,
    decreases end - pos, 1int,
{
    let (t, p) = get_u8(b, pos, end)?;
    if t == 66 || t == 67 || t == 68 || t == 70 || t == 73 || t == 74 || t == 83 || t == 90 || t
        == 115 {
        let (i, q) = read_index(b, p, end)?;
        Ok((ElementValue::ConstantValue(i), q))
    } else if t == 101 {
        let ((type_name_index, const_name_index), q) = read_index_pair(b, p, end)?;
        Ok((ElementValue::Enum { type_name_index, const_name_index }, q))
    } else if t == 99 {
        let (i, q) = read_index(b, p, end)?;
        Ok((ElementValue::ClassInfo(i), q))
    } else if t == 64 {
        let (a, q) = read_annotation(b, p, end)?;
        Ok((ElementValue::Annotation(a), q))
    } else if t == 91 {
        if end - p < 2 {
            return Err(Fault { kind: FaultKind::Truncated, offset: p });
        }
        let n = peek_u16(b, p);
        let (values, q) = read_value_list(b, p + 2, end, n)?;
        let v = ElementValue::Array(values);
        proof {
            lemma_array_view(v);
        }
        Ok((v, q))
    } else {
        Err(Fault { kind: FaultKind::UnknownTag, offset: pos })
    }
}

/// Reads the `n` element values that start at `pos`.
pub fn read_value_list(b: &[u8], pos: usize, end: usize, n: u16) -> (r: Result<
    (Vec<ElementValue>, usize),
    Fault,
>)
    requires
        in_region(b@, pos as int, end as int),
    ensures
        agrees_with(
            r,
            |v: Vec<ElementValue>| values_view(v@),
            dec_value_list(b@, pos as int, end as int, n as int),
            pos,
            end,
        ),
    decreases end - pos, n + 2,
{
    let mut v: Vec<ElementValue> = Vec::new();
    let mut p: usize = pos;
    let mut i: u16 = 0;
    assert(values_view(v@) =~= Seq::empty());
    while i < n
        invariant
            i <= n,
            pos <= p,
            in_region(b@, p as int, end as int),
            dec_value_list(b@, pos as int, end as int, n as int) == prepend(
                values_view(v@),
                dec_value_list(b@, p as int, end as int, n - i),
            ),
        decreases n - i,
    {
        let ghost before = values_view(v@);
        let (x, q) = read_value(b, p, end)?;
        let ghost xv = x@;
        v.push(x);
        proof {
            assert(values_view(v@) =~= before + seq![xv]);
            if let Ok((tail, _)) = dec_value_list(b@, q as int, end as int, n - i - 1) {
                assert(before + (seq![xv] + tail) =~= values_view(v@) + tail);
            }
        }
        p = q;
        i = i + 1;
    }
    proof {
        assert(values_view(v@) + Seq::<ElementValueView>::empty() =~= values_view(v@));
    }
    Ok((v, p))
}

/// Reads the pair that starts at `pos`.
pub fn read_pair(b: &[u8], pos: usize, end: usize) -> (r: Result<(ElementValuePair, usize), Fault>)
    requires
        in_region(b@, pos as int, end as int),
    ensures
        agrees(r, dec_pair(b@, pos as int, end as int), pos, end),
        r matches Ok((_, p)) ==> p > pos,
    decreases end - pos, 1int,
{
    if end - pos < 2 {
        return Err(Fault { kind: FaultKind::Truncated, offset: pos });
    }
    let name = peek_u16(b, pos);
    let (value, q) = read_value(b, pos + 2, end)?;
    Ok((ElementValuePair { element_name_index: ConstantPoolIndex { idx: name as usize }, value }, q))
}

/// Reads the `n` pairs that start at `pos`.
pub fn read_pair_list(b: &[u8], pos: usize, end: usize, n: u16) -> (r: Result<
    (Vec<ElementValuePair>, usize),
    Fault,
>)
    requires
        in_region(b@, pos as int, end as int),
    ensures
        agrees_with(
            r,
            |v: Vec<ElementValuePair>| pairs_view(v@),
            dec_pair_list(b@, pos as int, end as int, n as int),
            pos,
            end,
        ),
    decreases end - pos, n + 2,
{
    let mut v: Vec<ElementValuePair> = Vec::new();
    let mut p: usize = pos;
    let mut i: u16 = 0;
    assert(pairs_view(v@) =~= Seq::empty());
    while i < n
        invariant
            i <= n,
            pos <= p,
            in_region(b@, p as int, end as int),
            dec_pair_list(b@, pos as int, end as int, n as int) == prepend(
                pairs_view(v@),
                dec_pair_list(b@, p as int, end as int, n - i),
            ),
        decreases n - i,
    {
        let ghost before = pairs_view(v@);
        let (x, q) = read_pair(b, p, end)?;
        let ghost xv = x@;
        v.push(x);
        proof {
            assert(pairs_view(v@) =~= before + seq![xv]);
            if let Ok((tail, _)) = dec_pair_list(b@, q as int, end as int, n - i - 1) {
                assert(before + (seq![xv] + tail) =~= pairs_view(v@) + tail);
            }
        }
        p = q;
        i = i + 1;
    }
    proof {
        assert(pairs_view(v@) + Seq::<ElementValuePairView>::empty() =~= pairs_view(v@));
    }
    Ok((v, p))
}

/// Reads the annotation that starts at `pos`.
pub fn read_annotation(b: &[u8], pos: usize, end: usize) -> (r: Result<(Annotation, usize), Fault>)
    requires
        in_region(b@, pos as int, end as int),
    ensures
        agrees(r, dec_annotation(b@, pos as int, end as int), pos, end),
        r matches Ok((_, p)) ==> p > pos,
    decreases end - pos, 1int,
{
    if end - pos < 4 {
        return Err(Fault { kind: FaultKind::Truncated, offset: pos });
    }
    let type_index = peek_u16(b, pos);
    let n = peek_u16(b, pos + 2);
    let (element_value_pairs, q) = read_pair_list(b, pos + 4, end, n)?;
    let a = Annotation {
        type_index: ConstantPoolIndex { idx: type_index as usize },
        element_value_pairs,
    };
    proof {
        lemma_annotation_view(a);
    }
    Ok((a, q))
}

/// Reads a sixteen-bit count and as many annotations.
pub fn read_annotations(b: &[u8], pos: usize, end: usize) -> (r: Result<
    (Vec<Annotation>, usize),
    Fault,
>)
    requires
        in_region(b@, pos as int, end as int),
    ensures
        agrees_with(
            r,
            |v: Vec<Annotation>| annotations_view(v@),
            dec_annotations(b@, pos as int, end as int),
            pos,
            end,
        ),
{
    if end - pos < 2 {
        return Err(Fault { kind: FaultKind::Truncated, offset: pos });
    }
    let n = peek_u16(b, pos);
    let mut v: Vec<Annotation> = Vec::new();
    let mut p: usize = pos + 2;
    let mut i: u16 = 0;
    assert(annotations_view(v@) =~= Seq::empty());
    while i < n
        invariant
            i <= n,
            pos <= p,
            in_region(b@, p as int, end as int),
            dec_annotations(b@, pos as int, end as int) == prepend(
                annotations_view(v@),
                dec_annotation_list(b@, p as int, end as int, n - i),
            ),
        decreases n - i,
    {
        let ghost before = annotations_view(v@);
        let (x, q) = read_annotation(b, p, end)?;
        let ghost xv = x@;
        v.push(x);
        proof {
            assert(annotations_view(v@) =~= before + seq![xv]);
            if let Ok((tail, _)) = dec_annotation_list(b@, q as int, end as int, n - i - 1) {
                assert(before + (seq![xv] + tail) =~= annotations_view(v@) + tail);
            }
        }
        p = q;
        i = i + 1;
    }
    proof {
        assert(annotations_view(v@) + Seq::<AnnotationView>::empty() =~= annotations_view(v@));
    }
    Ok((v, p))
}

/// Reads the annotations of the payload of a `RuntimeVisibleAnnotations`
/// or `RuntimeInvisibleAnnotations` attribute.
pub fn read_annotations_payload(info: &[u8]) -> (r: Result<Vec<Annotation>, Fault>)
    ensures
        match r {
            Ok(v) => dec_annotations_payload(info@) == Ok::<Seq<AnnotationView>, Fault>(
                annotations_view(v@),
            ),
            Err(e) => dec_annotations_payload(info@) == Err::<Seq<AnnotationView>, Fault>(e),
        },
{
    let end = info.len();
    let (v, p) = read_annotations(info, 0, end)?;
    if p == end {
        Ok(v)
    } else {
        Err(Fault { kind: FaultKind::LengthMismatch, offset: p })
    }
}

/// Reads the annotations of the payload of a parameter annotations
/// attribute.
pub fn read_parameters_payload(info: &[u8]) -> (r: Result<Vec<Vec<Annotation>>, Fault>)
    ensures
        match r {
            Ok(v) => dec_parameters_payload(info@) == Ok::<Seq<Seq<AnnotationView>>, Fault>(
                parameters_view(v@),
            ),
            Err(e) => dec_parameters_payload(info@) == Err::<Seq<Seq<AnnotationView>>, Fault>(e),
        },
{
    let end = info.len();
    let (n, start) = get_u8(info, 0, end)?;
    let mut v: Vec<Vec<Annotation>> = Vec::new();
    let mut p: usize = start;
    let mut i: u8 = 0;
    assert(parameters_view(v@) =~= Seq::empty());
    while i < n
        invariant
            i <= n,
            end == info@.len(),
            take_u8(info@, 0, end as int) == Ok::<(u8, int), Fault>((n, start as int)),
            in_region(info@, p as int, end as int),
            dec_parameter_list(info@, start as int, end as int, n as int) == prepend(
                parameters_view(v@),
                dec_parameter_list(info@, p as int, end as int, n - i),
            ),
        decreases n - i,
    {
        let ghost before = parameters_view(v@);
        let (x, q) = read_annotations(info, p, end)?;
        let ghost xv = annotations_view(x@);
        v.push(x);
        proof {
            assert(parameters_view(v@) =~= before + seq![xv]);
            if let Ok((tail, _)) = dec_parameter_list(info@, q as int, end as int, n - i - 1) {
                assert(before + (seq![xv] + tail) =~= parameters_view(v@) + tail);
            }
        }
        p = q;
        i = i + 1;
    }
    proof {
        assert(parameters_view(v@) + Seq::<Seq<AnnotationView>>::empty() =~= parameters_view(v@));
    }
    if p == end {
        Ok(v)
    } else {
        Err(Fault { kind: FaultKind::LengthMismatch, offset: p })
    }
}

/// Reads the element value of the payload of an `AnnotationDefault`
/// attribute.
pub fn read_default_payload(info: &[u8]) -> (r: Result<ElementValue, Fault>)
    ensures
        match r {
            Ok(v) => dec_default_payload(info@) == Ok::<ElementValueView, Fault>(v@),
            Err(e) => dec_default_payload(info@) == Err::<ElementValueView, Fault>(e),
        },
{
    let end = info.len();
    let (v, p) = read_value(info, 0, end)?;
    if p == end {
        Ok(v)
    } else {
        Err(Fault { kind: FaultKind::LengthMismatch, offset: p })
    }
}

/// The kind `info` of a target whose data, `n` bytes from `pos` on, the
/// model does not hold.
pub open spec fn skipped(info: TargetInfo, pos: int, end: int, n: int) -> Result<(TargetInfo, int), Fault> {
    if pos + n <= end {
        Ok((info, pos + n))
    } else {
        Err(truncated(pos))
    }
}

/// The target of the type annotation that starts at `pos`: the target type
/// says of which kind it is, and how many bytes of data follow.
pub open spec fn dec_target(s: Seq<u8>, pos: int, end: int) -> Result<(TargetInfo, int), Fault> {
    match take_u8(s, pos, end) {
        Err(e) => Err(e),
        Ok((t, p)) => if t <= 0x01 {
            skipped(TargetInfo::TypeParameter, p, end, 1)
        } else if t == 0x10 {
            skipped(TargetInfo::SuperType, p, end, 2)
        } else if t == 0x11 || t == 0x12 {
            skipped(TargetInfo::TypeParameterBound, p, end, 2)
        } else if 0x13 <= t <= 0x15 {
            skipped(TargetInfo::Empty, p, end, 0)
        } else if t == 0x16 {
            skipped(TargetInfo::MethodFormalParameter, p, end, 1)
        } else if t == 0x17 {
            skipped(TargetInfo::Throws, p, end, 2)
        } else if t == 0x40 || t == 0x41 {
            if p + 2 <= end {
                skipped(TargetInfo::LocalVar, p + 2, end, 6 * word16(s, p))
            } else {
                Err(truncated(p))
            }
        } else if t == 0x42 {
            skipped(TargetInfo::Catch, p, end, 2)
        } else if 0x43 <= t <= 0x46 {
            skipped(TargetInfo::Offset, p, end, 2)
        } else if 0x47 <= t <= 0x4B {
            skipped(TargetInfo::TypeArgument, p, end, 3)
        } else {
            Err(fault(FaultKind::UnknownTag, pos))
        },
    }
}

/// The type annotation that starts at `pos`: the target, the path to the
/// annotated part of the type, the index of the type of the annotation, a
/// count and as many pairs.
pub open spec fn dec_type_annotation(s: Seq<u8>, pos: int, end: int) -> Result<
    (TypeAnnotationView, int),
    Fault,
> {
    match dec_target(s, pos, end) {
        Err(e) => Err(e),
        Ok((target_info, p)) => match dec_counted8::<(TypePathKind, u8)>(s, p, end) {
            Err(e) => Err(e),
            Ok((target_path, q)) => if q + 4 <= end {
                match dec_pair_list(s, q + 4, end, word16(s, q + 2) as int) {
                    Err(e) => Err(e),
                    Ok((element_value_pairs, r)) => Ok(
                        (
                            TypeAnnotationView {
                                target_info,
                                target_path,
                                type_index: ConstantPoolIndex { idx: word16(s, q) as usize },
                                element_value_pairs,
                            },
                            r,
                        ),
                    ),
                }
            } else {
                Err(truncated(q))
            },
        },
    }
}

/// The `n` type annotations that start at `pos`.
pub open spec fn dec_type_annotation_list(s: Seq<u8>, pos: int, end: int, n: int) -> Result<
    (Seq<TypeAnnotationView>, int),
    Fault,
>
    decreases n,
{
    if n <= 0 {
        Ok((Seq::empty(), pos))
    } else {
        match dec_type_annotation(s, pos, end) {
            Err(e) => Err(e),
            Ok((a, p)) => prepend(seq![a], dec_type_annotation_list(s, p, end, n - 1)),
        }
    }
}

/// The type annotations that the payload `s` of a
/// `RuntimeVisibleTypeAnnotations` or `RuntimeInvisibleTypeAnnotations`
/// attribute holds.
pub open spec fn dec_type_annotations_payload(s: Seq<u8>) -> Result<Seq<TypeAnnotationView>, Fault> {
    let end = s.len() as int;
    match take_u16(s, 0, end) {
        Err(e) => Err(e),
        Ok((n, p)) => whole(dec_type_annotation_list(s, p, end, n as int), end),
    }
}

/// Steps over the `n` bytes of data of a target of kind `info`.
fn skip(info: TargetInfo, pos: usize, end: usize, n: usize) -> (r: Result<(TargetInfo, usize), Fault>)
    requires
        pos <= end,
    ensures
        match r {
            Ok((i, p)) => skipped(info, pos as int, end as int, n as int) == Ok::<
                (TargetInfo, int),
                Fault,
            >((i, p as int)) && pos <= p <= end,
            Err(e) => skipped(info, pos as int, end as int, n as int) == Err::<
                (TargetInfo, int),
                Fault,
            >(e),
        },
{
    if end - pos >= n {
        Ok((info, pos + n))
    } else {
        Err(Fault { kind: FaultKind::Truncated, offset: pos })
    }
}

/// Reads the target of the type annotation that starts at `pos`.
pub fn read_target(b: &[u8], pos: usize, end: usize) -> (r: Result<(TargetInfo, usize), Fault>)
    requires
        in_region(b@, pos as int, end as int),
    ensures
        agrees_plain(r, dec_target(b@, pos as int, end as int), pos, end),
{
    let (t, p) = get_u8(b, pos, end)?;
    if t <= 0x01 {
        skip(TargetInfo::TypeParameter, p, end, 1)
    } else if t == 0x10 {
        skip(TargetInfo::SuperType, p, end, 2)
    } else if t == 0x11 || t == 0x12 {
        skip(TargetInfo::TypeParameterBound, p, end, 2)
    } else if 0x13 <= t && t <= 0x15 {
        skip(TargetInfo::Empty, p, end, 0)
    } else if t == 0x16 {
        skip(TargetInfo::MethodFormalParameter, p, end, 1)
    } else if t == 0x17 {
        skip(TargetInfo::Throws, p, end, 2)
    } else if t == 0x40 || t == 0x41 {
        if end - p < 2 {
            return Err(Fault { kind: FaultKind::Truncated, offset: p });
        }
        let n = peek_u16(b, p);
        skip(TargetInfo::LocalVar, p + 2, end, 6 * (n as usize))
    } else if t == 0x42 {
        skip(TargetInfo::Catch, p, end, 2)
    } else if 0x43 <= t && t <= 0x46 {
        skip(TargetInfo::Offset, p, end, 2)
    } else if 0x47 <= t && t <= 0x4B {
        skip(TargetInfo::TypeArgument, p, end, 3)
    } else {
        Err(Fault { kind: FaultKind::UnknownTag, offset: pos })
    }
}

/// Reads the type annotation that starts at `pos`.
pub fn read_type_annotation(b: &[u8], pos: usize, end: usize) -> (r: Result<
    (TypeAnnotation, usize),
    Fault,
>)
    requires
        in_region(b@, pos as int, end as int),
    ensures
        agrees(r, dec_type_annotation(b@, pos as int, end as int), pos, end),
{
    let (target_info, p) = read_target(b, pos, end)?;
    let (path, q) = read_counted8::<(TypePathKind, u8)>(b, p, end)?;
    if end - q < 4 {
        return Err(Fault { kind: FaultKind::Truncated, offset: q });
    }
    let type_index = peek_u16(b, q);
    let n = peek_u16(b, q + 2);
    let (element_value_pairs, r) = read_pair_list(b, q + 4, end, n)?;
    Ok(
        (
            TypeAnnotation {
                target_info,
                target_path: TypePath { path },
                type_index: ConstantPoolIndex { idx: type_index as usize },
                element_value_pairs,
            },
            r,
        ),
    )
}

/// Reads the type annotations of the payload of a
/// `RuntimeVisibleTypeAnnotations` or `RuntimeInvisibleTypeAnnotations`
/// attribute.
pub fn read_type_annotations_payload(info: &[u8]) -> (r: Result<Vec<TypeAnnotation>, Fault>)
    ensures
        match r {
            Ok(v) => dec_type_annotations_payload(info@) == Ok::<Seq<TypeAnnotationView>, Fault>(
                type_annotations_view(v@),
            ),
            Err(e) => dec_type_annotations_payload(info@) == Err::<Seq<TypeAnnotationView>, Fault>(e),
        },
{
    let end = info.len();
    let (n, start) = get_u16(info, 0, end)?;
    let mut v: Vec<TypeAnnotation> = Vec::new();
    let mut p: usize = start;
    let mut i: u16 = 0;
    assert(type_annotations_view(v@) =~= Seq::empty());
    while i < n
        invariant
            i <= n,
            end == info@.len(),
            take_u16(info@, 0, end as int) == Ok::<(u16, int), Fault>((n, start as int)),
            in_region(info@, p as int, end as int),
            dec_type_annotation_list(info@, start as int, end as int, n as int) == prepend(
                type_annotations_view(v@),
                dec_type_annotation_list(info@, p as int, end as int, n - i),
            ),
        decreases n - i,
    {
        let ghost before = type_annotations_view(v@);
        let (x, q) = read_type_annotation(info, p, end)?;
        let ghost xv = x@;
        v.push(x);
        proof {
            assert(type_annotations_view(v@) =~= before + seq![xv]);
            if let Ok((tail, _)) = dec_type_annotation_list(info@, q as int, end as int, n - i - 1) {
                assert(before + (seq![xv] + tail) =~= type_annotations_view(v@) + tail);
            }
        }
        p = q;
        i = i + 1;
    }
    proof {
        assert(type_annotations_view(v@) + Seq::<TypeAnnotationView>::empty()
            =~= type_annotations_view(v@));
    }
    if p == end {
        Ok(v)
    } else {
        Err(Fault { kind: FaultKind::LengthMismatch, offset: p })
    }
}

} // verus!
