//! The frames of a stack map table.
//!
//! The model holds a frame in part: a `SameFrame` has no offset delta, a
//! `ChopFrame` no count of the locals it drops. The codec therefore keeps
//! a `StackMapTable` attribute as bytes, and this module reads the frames
//! from those bytes for whoever wants to look at them.
use vstd::prelude::*;
use crate::bytecode::classfile::StackMapFrame;
use crate::bytecode::classfile::StackMapFrameView;
use crate::bytecode::classfile::VerificationType;
use crate::bytecode::classfile::frames_view;
use crate::bytecode::record::Record;
use crate::bytecode::record::Wire;
use crate::bytecode::record::dec_all;
use crate::bytecode::record::dec_counted;
use crate::bytecode::record::read_all;
use crate::bytecode::record::read_counted;
use crate::bytecode::wire::Fault;
use crate::bytecode::wire::FaultKind;
use crate::bytecode::wire::agrees;
use crate::bytecode::wire::fault;
use crate::bytecode::wire::get_u16;
use crate::bytecode::wire::get_u8;
use crate::bytecode::wire::in_region;
use crate::bytecode::wire::prepend;
use crate::bytecode::wire::take_u16;
use crate::bytecode::wire::take_u8;

verus! {

/// The frame that starts at `pos`. The frame type says of which kind it
/// is; a type that is reserved gives `FutureUse` and takes one byte.
pub open spec fn dec_frame(s: Seq<u8>, pos: int, end: int) -> Result<(StackMapFrameView, int), Fault> {
    match take_u8(s, pos, end) {
        Err(e) => Err(e),
        Ok((t, p)) => if t <= 63 {
            Ok((StackMapFrameView::SameFrame, p))
        } else if t <= 127 {
            match VerificationType::dec(s, p, end) {
                Err(e) => Err(e),
                Ok((stack, q)) => Ok(
                    (
                        StackMapFrameView::SameLocals1StackItemFrame {
                            offset_delta: (t - 64) as u16,
                            stack,
                        },
                        q,
                    ),
                ),
            }
        } else if t <= 246 {
            Ok((StackMapFrameView::FutureUse, p))
        } else {
            match take_u16(s, p, end) {
                Err(e) => Err(e),
                Ok((offset_delta, q)) => if t == 247 {
                    match VerificationType::dec(s, q, end) {
                        Err(e) => Err(e),
                        Ok((stack, r)) => Ok(
                            (
                                StackMapFrameView::SameLocals1StackItemFrameExtended {
                                    offset_delta,
                                    stack,
                                },
                                r,
                            ),
                        ),
                    }
                } else if t <= 250 {
                    Ok((StackMapFrameView::ChopFrame { offset_delta }, q))
                } else if t == 251 {
                    Ok((StackMapFrameView::SameFrameExtended { offset_delta }, q))
                } else if t <= 254 {
                    match dec_all::<VerificationType>(s, q, end, t - 251) {
                        Err(e) => Err(e),
                        Ok((locals, r)) => Ok(
                            (StackMapFrameView::AppendFrame { offset_delta, locals }, r),
                        ),
                    }
                } else {
                    match dec_counted::<VerificationType>(s, q, end) {
                        Err(e) => Err(e),
                        Ok((locals, r)) => match dec_counted::<VerificationType>(s, r, end) {
                            Err(e) => Err(e),
                            Ok((stack, u)) => Ok(
                                (StackMapFrameView::FullFrame { offset_delta, locals, stack }, u),
                            ),
                        },
                    }
                },
            }
        },
    }
}

/// The `n` frames that start at `pos`.
pub open spec fn dec_frame_list(s: Seq<u8>, pos: int, end: int, n: int) -> Result<
    (Seq<StackMapFrameView>, int),
    Fault,
>
    decreases n,
{
    if n <= 0 {
        Ok((Seq::empty(), pos))
    } else {
        match dec_frame(s, pos, end) {
            Err(e) => Err(e),
            Ok((f, p)) => prepend(seq![f], dec_frame_list(s, p, end, n - 1)),
        }
    }
}

/// The frames that the payload `s` of a `StackMapTable` attribute holds: a
/// sixteen-bit count and as many frames, which end where the payload ends.
pub open spec fn dec_stack_map_table(s: Seq<u8>) -> Result<Seq<StackMapFrameView>, Fault> {
    let end = s.len() as int;
    match take_u16(s, 0, end) {
        Err(e) => Err(e),
        Ok((n, p)) => match dec_frame_list(s, p, end, n as int) {
            Err(e) => Err(e),
            Ok((frames, q)) => if q == end {
                Ok(frames)
            } else {
                Err(fault(FaultKind::LengthMismatch, q))
            },
        },
    }
}

/// Reads the frame that starts at `pos`.
pub fn read_frame(b: &[u8], pos: usize, end: usize) -> (r: Result<(StackMapFrame, usize), Fault>)
    requires
        in_region(b@, pos as int, end as int),
    ensures
        agrees(r, dec_frame(b@, pos as int, end as int), pos, end),
{
    let (t, p) = get_u8(b, pos, end)?;
    if t <= 63 {
        Ok((StackMapFrame::SameFrame, p))
    } else if t <= 127 {
        let (stack, q) = VerificationType::read(b, p, end)?;
        Ok((StackMapFrame::SameLocals1StackItemFrame { offset_delta: (t - 64) as u16, stack }, q))
    } else if t <= 246 {
        Ok((StackMapFrame::FutureUse, p))
    } else {
        let (offset_delta, q) = get_u16(b, p, end)?;
        if t == 247 {
            let (stack, r) = VerificationType::read(b, q, end)?;
            Ok((StackMapFrame::SameLocals1StackItemFrameExtended { offset_delta, stack }, r))
        } else if t <= 250 {
            Ok((StackMapFrame::ChopFrame { offset_delta }, q))
        } else if t == 251 {
            Ok((StackMapFrame::SameFrameExtended { offset_delta }, q))
        } else if t <= 254 {
            let (locals, r) = read_all::<VerificationType>(b, q, end, (t - 251) as usize)?;
            Ok((StackMapFrame::AppendFrame { offset_delta, locals }, r))
        } else {
            let (locals, r) = read_counted::<VerificationType>(b, q, end)?;
            let (stack, u) = read_counted::<VerificationType>(b, r, end)?;
            Ok((StackMapFrame::FullFrame { offset_delta, locals, stack }, u))
        }
    }
}

/// Reads the frames of the payload of a `StackMapTable` attribute.
pub fn read_stack_map_table(info: &[u8]) -> (r: Result<Vec<StackMapFrame>, Fault>)
    ensures
        match r {
            Ok(v) => dec_stack_map_table(info@) == Ok::<Seq<StackMapFrameView>, Fault>(frames_view(v@)),
            Err(e) => dec_stack_map_table(info@) == Err::<Seq<StackMapFrameView>, Fault>(e),
        },
{
    let end = info.len();
    let (n, start) = get_u16(info, 0, end)?;
    let mut v: Vec<StackMapFrame> = Vec::new();
    let mut p: usize = start;
    let mut i: u16 = 0;
    assert(frames_view(v@) =~= Seq::empty());
    while i < n
        invariant
            i <= n,
            end == info@.len(),
            take_u16(info@, 0, end as int) == Ok::<(u16, int), Fault>((n, start as int)),
            in_region(info@, p as int, end as int),
            dec_frame_list(info@, start as int, end as int, n as int) == prepend(
                frames_view(v@),
                dec_frame_list(info@, p as int, end as int, n - i),
            ),
        decreases n - i,
    {
        let ghost before = frames_view(v@);
        let (x, q) = read_frame(info, p, end)?;
        let ghost xv = x@;
        v.push(x);
        proof {
            assert(frames_view(v@) =~= before + seq![xv]);
            if let Ok((tail, _)) = dec_frame_list(info@, q as int, end as int, n - i - 1) {
                assert(before + (seq![xv] + tail) =~= frames_view(v@) + tail);
            }
        }
        p = q;
        i = i + 1;
    }
    proof {
        assert(frames_view(v@) + Seq::<StackMapFrameView>::empty() =~= frames_view(v@));
    }
    if p == end {
        Ok(v)
    } else {
        Err(Fault { kind: FaultKind::LengthMismatch, offset: p })
    }
}

} // verus!
