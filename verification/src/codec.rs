//! The persisted plan format and the registry that decodes it.
//!
//! A plan is written as a byte string so that it can be stored and picked
//! up again by a later run (crash recovery, or a separate uninstall).
//! Every node is written as a completion marker followed by a kind code —
//! the wire form of the action's tag — and the kind's own body.  Decoding
//! looks the kind code up in the registry below; a code that no registered
//! kind claims is refused as [`crate::error::LeafError::UnknownActionKind`],
//! the sign of version skew between writer and reader.  Numbers travel as
//! eight little-endian bytes.

use vstd::prelude::*;
use vstd::bytes::{
    lemma_auto_spec_u64_to_from_le_bytes, spec_u64_from_le_bytes, spec_u64_to_le_bytes,
    u64_from_le_bytes, u64_to_le_bytes,
};
use crate::action::{
    Action, ActionState, ActionView, PlannedView, StatefulAction, size_action, size_children,
    size_planned, view_action, view_children, view_planned, wf_action, wf_planned,
};
use crate::error::{ActionError, LeafError, LeafErrorView};
use crate::tag::ActionTag;

verus! {

broadcast use
    vstd::std_specs::vec::axiom_vec_decreases_to_view,
    vstd::seq::axiom_seq_index_decreases,
    vstd::seq::axiom_seq_subrange_decreases,
;

/// Wire form of a completion marker.
pub open spec fn state_byte(s: ActionState) -> u8 {
    match s {
        ActionState::NotStarted => 0,
        ActionState::Completed => 1,
        ActionState::Reverted => 2,
    }
}

/// Completion marker of a wire byte.
pub open spec fn byte_state(b: u8) -> Option<ActionState> {
    if b == 0 {
        Some(ActionState::NotStarted)
    } else if b == 1 {
        Some(ActionState::Completed)
    } else if b == 2 {
        Some(ActionState::Reverted)
    } else {
        None
    }
}

/// Wire form of an action tag: the registry, writing side.
pub open spec fn kind_byte(t: ActionTag) -> u8 {
    match t {
        ActionTag::CreateDirectory => 1,
        ActionTag::CreateFile => 2,
        ActionTag::PlaceNixConfiguration => 3,
    }
}

/// Encoding of a planned action.
pub open spec fn enc_planned(p: PlannedView) -> Seq<u8>
    decreases p,
{
    seq![state_byte(p.state)] + enc_action(p.action)
}

/// Encoding of a number.
pub open spec fn enc_u64(x: u64) -> Seq<u8> {
    spec_u64_to_le_bytes(x)
}

/// Encoding of an action: its kind code and the kind's body.
pub open spec fn enc_action(a: ActionView) -> Seq<u8>
    decreases a,
{
    match a {
        ActionView::CreateDirectory { path, mode } => seq![1u8] + enc_u64(path.len() as u64)
            + path + enc_u64(mode as u64),
        ActionView::CreateFile { path, mode, content } => seq![2u8] + enc_u64(path.len() as u64)
            + path + enc_u64(mode as u64) + enc_u64(content.len() as u64) + content,
        ActionView::Composite { tag, children } => seq![kind_byte(tag)] + enc_u64(
            children.len() as u64,
        ) + enc_children(children),
    }
}

/// Encoding of children, in declared order.
pub open spec fn enc_children(cs: Seq<PlannedView>) -> Seq<u8>
    decreases cs,
{
    if cs.len() == 0 {
        Seq::empty()
    } else {
        enc_planned(cs[0]) + enc_children(cs.subrange(1, cs.len() as int))
    }
}

/// Whether every length in the tree fits the machine, so that the tree
/// can be decoded back into memory.
pub open spec fn bounded_action(a: ActionView) -> bool
    decreases a,
{
    match a {
        ActionView::CreateDirectory { path, .. } => path.len() <= usize::MAX,
        ActionView::CreateFile { path, content, .. } => path.len() <= usize::MAX && content.len()
            <= usize::MAX,
        ActionView::Composite { children, .. } => {
            &&& children.len() <= usize::MAX
            &&& forall|i: int| 0 <= i < children.len() ==> bounded_planned(#[trigger] children[i])
        },
    }
}

/// Whether every length in a planned tree fits the machine.
pub open spec fn bounded_planned(p: PlannedView) -> bool
    decreases p,
{
    bounded_action(p.action)
}

/// Decoding of a number.
pub open spec fn dec_u64(buf: Seq<u8>, pos: int) -> Result<(u64, int), LeafErrorView> {
    if 0 <= pos && pos + 8 <= buf.len() {
        Ok((spec_u64_from_le_bytes(buf.subrange(pos, pos + 8)), pos + 8))
    } else {
        Err(LeafErrorView::MalformedPlan)
    }
}

/// Decoding of a length-prefixed byte string.
pub open spec fn dec_bytes(buf: Seq<u8>, pos: int) -> Result<(Seq<u8>, int), LeafErrorView> {
    match dec_u64(buf, pos) {
        Err(le) => Err(le),
        Ok((n, p2)) => {
            if n <= usize::MAX as u64 && p2 + n <= buf.len() {
                Ok((buf.subrange(p2, p2 + n), p2 + n))
            } else {
                Err(LeafErrorView::MalformedPlan)
            }
        },
    }
}

/// Decoding of a planned action.
pub open spec fn dec_planned(buf: Seq<u8>, pos: int) -> Result<(PlannedView, int), LeafErrorView>
    decreases buf.len() - pos, 0int,
{
    if pos < 0 || pos + 1 > buf.len() {
        Err(LeafErrorView::MalformedPlan)
    } else {
        match byte_state(buf[pos]) {
            None => Err(LeafErrorView::MalformedPlan),
            Some(state) => match dec_action(buf, pos + 1) {
                Err(le) => Err(le),
                Ok((a, p2)) => Ok((PlannedView { action: a, state }, p2)),
            },
        }
    }
}

/// Decoding of an action: the registry, reading side.  A kind code that
/// no registered kind claims is refused as `UnknownActionKind` naming
/// that code; every other refusal is `MalformedPlan`.
pub open spec fn dec_action(buf: Seq<u8>, pos: int) -> Result<(ActionView, int), LeafErrorView>
    decreases buf.len() - pos, 0int,
{
    if pos < 0 || pos + 1 > buf.len() {
        Err(LeafErrorView::MalformedPlan)
    } else {
        let k = buf[pos];
        if k == 1 {
            match dec_bytes(buf, pos + 1) {
                Err(le) => Err(le),
                Ok((path, p2)) => match dec_u64(buf, p2) {
                    Err(le) => Err(le),
                    Ok((m, p3)) => {
                        if m <= u32::MAX as u64 {
                            Ok((ActionView::CreateDirectory { path, mode: m as u32 }, p3))
                        } else {
                            Err(LeafErrorView::MalformedPlan)
                        }
                    },
                },
            }
        } else if k == 2 {
            match dec_bytes(buf, pos + 1) {
                Err(le) => Err(le),
                Ok((path, p2)) => match dec_u64(buf, p2) {
                    Err(le) => Err(le),
                    Ok((m, p3)) => {
                        if m <= u32::MAX as u64 {
                            match dec_bytes(buf, p3) {
                                Err(le) => Err(le),
                                Ok((content, p4)) => Ok(
                                    (
                                        ActionView::CreateFile {
                                            path,
                                            mode: m as u32,
                                            content,
                                        },
                                        p4,
                                    ),
                                ),
                            }
                        } else {
                            Err(LeafErrorView::MalformedPlan)
                        }
                    },
                },
            }
        } else if k == 3 {
            match dec_u64(buf, pos + 1) {
                Err(le) => Err(le),
                Ok((n, p2)) => {
                    if n <= usize::MAX as u64 {
                        match dec_children(buf, p2, n as int) {
                            Err(le) => Err(le),
                            Ok((children, p3)) => Ok(
                                (
                                    ActionView::Composite {
                                        tag: ActionTag::PlaceNixConfiguration,
                                        children,
                                    },
                                    p3,
                                ),
                            ),
                        }
                    } else {
                        Err(LeafErrorView::MalformedPlan)
                    }
                },
            }
        } else {
            Err(LeafErrorView::UnknownActionKind { code: k })
        }
    }
}

/// Decoding of `n` children in order.
pub open spec fn dec_children(buf: Seq<u8>, pos: int, n: int) -> Result<
    (Seq<PlannedView>, int),
    LeafErrorView,
>
    decreases buf.len() - pos, n,
{
    if pos < 0 || pos > buf.len() || n < 0 {
        Err(LeafErrorView::MalformedPlan)
    } else if n == 0 {
        Ok((Seq::empty(), pos))
    } else {
        match dec_planned(buf, pos) {
            Err(le) => Err(le),
            Ok((p, p2)) => {
                if p2 <= pos || p2 > buf.len() {
                    Err(LeafErrorView::MalformedPlan)
                } else {
                    match dec_children(buf, p2, n - 1) {
                        Err(le) => Err(le),
                        Ok((t, p3)) => Ok((seq![p] + t, p3)),
                    }
                }
            },
        }
    }
}

/// A prefix equality splits over a concatenation.
proof fn lemma_split(buf: Seq<u8>, pos: int, a: Seq<u8>, b: Seq<u8>)
    requires
        0 <= pos,
        pos + a.len() + b.len() <= buf.len(),
        buf.subrange(pos, pos + a.len() + b.len()) == a + b,
    ensures
        buf.subrange(pos, pos + a.len() as int) =~= a,
        buf.subrange(pos + a.len(), pos + a.len() + b.len()) =~= b,
{
    assert forall|i: int| 0 <= i < a.len() implies buf.subrange(pos, pos + a.len() as int)[i]
        == a[i] by {
        assert((a + b)[i] == a[i]);
        assert(buf.subrange(pos, pos + a.len() + b.len())[i] == buf[pos + i]);
    }
    assert forall|i: int| 0 <= i < b.len() implies buf.subrange(
        pos + a.len(),
        pos + a.len() + b.len(),
    )[i] == b[i] by {
        assert((a + b)[a.len() + i] == b[i]);
        assert(buf.subrange(pos, pos + a.len() + b.len())[a.len() + i] == buf[pos + a.len() + i]);
    }
}

/// Round trip for numbers: decoding what was encoded gives the number
/// back and stands at the following byte.
proof fn lemma_dec_enc_u64(x: u64, buf: Seq<u8>, pos: int)
    requires
        0 <= pos,
        pos + 8 <= buf.len(),
        buf.subrange(pos, pos + 8) == enc_u64(x),
    ensures
        dec_u64(buf, pos) == Ok::<(u64, int), LeafErrorView>((x, pos + 8)),
{
    lemma_auto_spec_u64_to_from_le_bytes();
}

/// Round trip for a planned action: decoding an encoding, wherever it
/// stands in a larger buffer, gives the same tree back and stands at the
/// following byte.
pub proof fn lemma_round_trip_planned(p: PlannedView, buf: Seq<u8>, pos: int)
    requires
        wf_planned(p),
        bounded_planned(p),
        0 <= pos,
        pos + enc_planned(p).len() <= buf.len(),
        buf.subrange(pos, pos + enc_planned(p).len() as int) == enc_planned(p),
    ensures
        dec_planned(buf, pos) == Ok::<(PlannedView, int), LeafErrorView>((p, pos + enc_planned(p).len() as int)),
    decreases p,
{
    let e = enc_planned(p);
    let ea = enc_action(p.action);
    let head = seq![state_byte(p.state)];
    lemma_split(buf, pos, head, ea);
    assert(buf[pos] == state_byte(p.state)) by {
        assert(buf.subrange(pos, pos + 1)[0] == buf[pos]);
    }
    assert(byte_state(state_byte(p.state)) == Some(p.state));
    lemma_round_trip_action(p.action, buf, pos + 1);
}

/// Round trip for an action.
proof fn lemma_round_trip_action(a: ActionView, buf: Seq<u8>, pos: int)
    requires
        wf_action(a),
        bounded_action(a),
        0 <= pos,
        pos + enc_action(a).len() <= buf.len(),
        buf.subrange(pos, pos + enc_action(a).len() as int) == enc_action(a),
    ensures
        dec_action(buf, pos) == Ok::<(ActionView, int), LeafErrorView>((a, pos + enc_action(a).len() as int)),
    decreases a,
{
    lemma_auto_spec_u64_to_from_le_bytes();
    match a {
        ActionView::CreateDirectory { path, mode } => {
            let k = seq![1u8];
            let lp = enc_u64(path.len() as u64);
            let em = enc_u64(mode as u64);
            let body = lp + path + em;
            assert(k + body =~= enc_action(a));
            lemma_split(buf, pos, k, body);
            assert(buf[pos] == 1u8) by {
                assert(buf.subrange(pos, pos + 1)[0] == buf[pos]);
            }
            assert(lp + (path + em) =~= body);
            lemma_split(buf, pos + 1, lp, path + em);
            lemma_dec_enc_u64(path.len() as u64, buf, pos + 1);
            lemma_split(buf, pos + 9, path, em);
            assert((path.len() as u64) as int == path.len());
            lemma_dec_enc_u64(mode as u64, buf, pos + 9 + path.len());
            assert((mode as u64) <= u32::MAX as u64);
            assert((mode as u64) as u32 == mode);
        },
        ActionView::CreateFile { path, mode, content } => {
            let k = seq![2u8];
            let lp = enc_u64(path.len() as u64);
            let em = enc_u64(mode as u64);
            let lc = enc_u64(content.len() as u64);
            let body = lp + path + em + lc + content;
            assert(k + body =~= enc_action(a));
            lemma_split(buf, pos, k, body);
            assert(buf[pos] == 2u8) by {
                assert(buf.subrange(pos, pos + 1)[0] == buf[pos]);
            }
            assert(lp + (path + em + lc + content) =~= body);
            lemma_split(buf, pos + 1, lp, path + em + lc + content);
            lemma_dec_enc_u64(path.len() as u64, buf, pos + 1);
            assert(path + (em + lc + content) =~= path + em + lc + content);
            lemma_split(buf, pos + 9, path, em + lc + content);
            assert((path.len() as u64) as int == path.len());
            let q = pos + 9 + path.len();
            assert(em + (lc + content) =~= em + lc + content);
            lemma_split(buf, q, em, lc + content);
            lemma_dec_enc_u64(mode as u64, buf, q);
            lemma_split(buf, q + 8, lc, content);
            lemma_dec_enc_u64(content.len() as u64, buf, q + 8);
            assert((content.len() as u64) as int == content.len());
            assert(buf.subrange(q + 16, q + 16 + content.len()) =~= content);
            assert((mode as u64) <= u32::MAX as u64);
            assert((mode as u64) as u32 == mode);
        },
        ActionView::Composite { tag, children } => {
            let k = seq![kind_byte(tag)];
            let ln = enc_u64(children.len() as u64);
            let ec = enc_children(children);
            assert(k + (ln + ec) =~= enc_action(a));
            lemma_split(buf, pos, k, ln + ec);
            assert(buf[pos] == kind_byte(tag)) by {
                assert(buf.subrange(pos, pos + 1)[0] == buf[pos]);
            }
            assert(kind_byte(tag) == 3u8);
            lemma_split(buf, pos + 1, ln, ec);
            lemma_dec_enc_u64(children.len() as u64, buf, pos + 1);
            assert((children.len() as u64) as int == children.len());
            lemma_round_trip_children(children, buf, pos + 9);
        },
    }
}

/// Round trip for a run of children.
proof fn lemma_round_trip_children(cs: Seq<PlannedView>, buf: Seq<u8>, pos: int)
    requires
        forall|i: int|
            0 <= i < cs.len() ==> wf_planned(#[trigger] cs[i]) && bounded_planned(cs[i]),
        0 <= pos,
        pos + enc_children(cs).len() <= buf.len(),
        buf.subrange(pos, pos + enc_children(cs).len() as int) == enc_children(cs),
    ensures
        dec_children(buf, pos, cs.len() as int) == Ok::<(Seq<PlannedView>, int), LeafErrorView>(
            (cs, pos + enc_children(cs).len() as int),
        ),
    decreases cs,
{
    if cs.len() == 0 {
        assert(dec_children(buf, pos, 0) == Ok::<(Seq<PlannedView>, int), LeafErrorView>((Seq::empty(), pos)));
        assert(cs =~= Seq::<PlannedView>::empty());
    } else {
        let rest = cs.subrange(1, cs.len() as int);
        let eh = enc_planned(cs[0]);
        let et = enc_children(rest);
        lemma_split(buf, pos, eh, et);
        lemma_enc_planned_len(cs[0]);
        lemma_round_trip_planned(cs[0], buf, pos);
        lemma_round_trip_children(rest, buf, pos + eh.len());
        assert(seq![cs[0]] + rest =~= cs);
    }
}

/// An encoded planned action is never empty, so decoding always moves
/// forward.
proof fn lemma_enc_planned_len(p: PlannedView)
    ensures
        enc_planned(p).len() >= 2,
{
    match p.action {
        ActionView::CreateDirectory { .. } => {},
        ActionView::CreateFile { .. } => {},
        ActionView::Composite { .. } => {},
    }
}

/// Round trip, plan level: a well-formed plan decodes from its own
/// encoding to an equal tree — same kinds, same declared order, same
/// completion markers — consuming the whole encoding.
pub proof fn lemma_plan_round_trip(p: PlannedView)
    requires
        wf_planned(p),
        bounded_planned(p),
    ensures
        dec_planned(enc_planned(p), 0) == Ok::<(PlannedView, int), LeafErrorView>((p, enc_planned(p).len() as int)),
{
    let buf = enc_planned(p);
    assert(buf.subrange(0, buf.len() as int) =~= buf);
    lemma_round_trip_planned(p, buf, 0);
}

/// Wire form of a completion marker.
fn state_to_byte(s: ActionState) -> (b: u8)
    ensures
        b == state_byte(s),
{
    match s {
        ActionState::NotStarted => 0,
        ActionState::Completed => 1,
        ActionState::Reverted => 2,
    }
}

/// Completion marker of a wire byte.
fn byte_to_state(b: u8) -> (r: Option<ActionState>)
    ensures
        r == byte_state(b),
{
    if b == 0 {
        Some(ActionState::NotStarted)
    } else if b == 1 {
        Some(ActionState::Completed)
    } else if b == 2 {
        Some(ActionState::Reverted)
    } else {
        None
    }
}

/// Wire form of an action tag.
fn tag_to_byte(t: ActionTag) -> (b: u8)
    ensures
        b == kind_byte(t),
{
    match t {
        ActionTag::CreateDirectory => 1,
        ActionTag::CreateFile => 2,
        ActionTag::PlaceNixConfiguration => 3,
    }
}

/// Appends the encoding of a number.
fn push_u64(out: &mut Vec<u8>, x: u64)
    ensures
        final(out)@ == old(out)@ + enc_u64(x),
{
    let mut b = u64_to_le_bytes(x);
    out.append(&mut b);
}

/// Writes a plan in the persisted format.
pub fn serialize_plan(p: &StatefulAction) -> (r: Vec<u8>)
    ensures
        r@ == enc_planned(p@),
{
    encode_planned(p)
}

fn encode_planned(p: &StatefulAction) -> (r: Vec<u8>)
    ensures
        r@ == enc_planned(view_planned(*p)),
    decreases size_planned(view_planned(*p)),
{
    let mut out: Vec<u8> = Vec::new();
    out.push(state_to_byte(p.state));
    let mut body = encode_action(&p.action);
    out.append(&mut body);
    proof {
        assert(out@ =~= enc_planned(view_planned(*p)));
    }
    out
}

fn encode_action(a: &Action) -> (r: Vec<u8>)
    ensures
        r@ == enc_action(view_action(*a)),
    decreases size_action(view_action(*a)),
{
    match a {
        Action::CreateDirectory { path, mode } => {
            let mut out: Vec<u8> = Vec::new();
            out.push(1u8);
            push_u64(&mut out, path.len() as u64);
            out.extend_from_slice(path.as_slice());
            push_u64(&mut out, (*mode) as u64);
            proof {
                assert(out@ =~= enc_action(view_action(*a)));
            }
            out
        },
        Action::CreateFile { path, mode, content } => {
            let mut out: Vec<u8> = Vec::new();
            out.push(2u8);
            push_u64(&mut out, path.len() as u64);
            out.extend_from_slice(path.as_slice());
            push_u64(&mut out, (*mode) as u64);
            push_u64(&mut out, content.len() as u64);
            out.extend_from_slice(content.as_slice());
            proof {
                assert(out@ =~= enc_action(view_action(*a)));
            }
            out
        },
        Action::Composite { tag, children } => {
            let mut out: Vec<u8> = Vec::new();
            out.push(tag_to_byte(*tag));
            push_u64(&mut out, children.len() as u64);
            proof {
                crate::action::lemma_view_children_elems(children@);
                assert(view_children(children@).subrange(0, children@.len() as int)
                    =~= view_children(children@));
            }
            let mut body = encode_children(children, 0);
            out.append(&mut body);
            proof {
                assert(out@ =~= enc_action(view_action(*a)));
            }
            out
        },
    }
}

fn encode_children(cs: &Vec<StatefulAction>, i: usize) -> (r: Vec<u8>)
    requires
        i <= cs@.len(),
    ensures
        r@ == enc_children(view_children(cs@).subrange(i as int, cs@.len() as int)),
    decreases size_children(view_children(cs@).subrange(i as int, cs@.len() as int)),
{
    proof {
        crate::action::lemma_view_children_elems(cs@);
    }
    let ghost whole = view_children(cs@);
    let ghost sub = whole.subrange(i as int, cs@.len() as int);
    if i == cs.len() {
        proof {
            assert(sub =~= Seq::<PlannedView>::empty());
        }
        Vec::new()
    } else {
        proof {
            assert(sub[0] == view_planned(cs@[i as int]));
            assert(sub.subrange(1, sub.len() as int) =~= whole.subrange(
                i + 1 as int,
                cs@.len() as int,
            ));
        }
        let mut head = encode_planned(&cs[i]);
        let mut tail = encode_children(cs, i + 1);
        head.append(&mut tail);
        proof {
            assert(head@ =~= enc_children(sub));
        }
        head
    }
}

/// Reads a number.
fn read_u64(buf: &Vec<u8>, pos: usize) -> (r: Result<(u64, usize), ActionError>)
    ensures
        match r {
            Ok((v, n)) => dec_u64(buf@, pos as int) == Ok::<(u64, int), LeafErrorView>(
                (v, n as int),
            ) && n == pos + 8,
            Err(e) => dec_u64(buf@, pos as int) == Err::<(u64, int), LeafErrorView>(e@.leaf)
                && e@.chain.len() == 0,
        },
{
    if buf.len() < 8 || pos > buf.len() - 8 {
        Err(ActionError::Leaf { error: LeafError::MalformedPlan })
    } else {
        let v = u64_from_le_bytes(&buf.as_slice()[pos..pos + 8]);
        Ok((v, pos + 8))
    }
}

/// Reads a length-prefixed byte string.
fn read_bytes(buf: &Vec<u8>, pos: usize) -> (r: Result<(Vec<u8>, usize), ActionError>)
    ensures
        match r {
            Ok((v, n)) => dec_bytes(buf@, pos as int) == Ok::<(Seq<u8>, int), LeafErrorView>(
                (v@, n as int),
            ) && pos < n <= buf@.len(),
            Err(e) => dec_bytes(buf@, pos as int) == Err::<(Seq<u8>, int), LeafErrorView>(e@.leaf)
                && e@.chain.len() == 0,
        },
{
    let (ln, p2) = match read_u64(buf, pos) {
        Ok(x) => x,
        Err(e) => {
            return Err(e);
        },
    };
    if ln > usize::MAX as u64 {
        return Err(ActionError::Leaf { error: LeafError::MalformedPlan });
    }
    let ln_us = ln as usize;
    if ln_us > buf.len() || p2 > buf.len() - ln_us {
        return Err(ActionError::Leaf { error: LeafError::MalformedPlan });
    }
    let v = vstd::slice::slice_to_vec(&buf.as_slice()[p2..p2 + ln_us]);
    proof {
        assert(v@ =~= buf@.subrange(p2 as int, p2 as int + ln as int));
    }
    Ok((v, p2 + ln_us))
}

/// Reads a plan in the persisted format, checking that the whole buffer
/// is consumed.
pub fn deserialize_plan(buf: &Vec<u8>) -> (r: Result<StatefulAction, ActionError>)
    ensures
        match r {
            Ok(sa) => dec_planned(buf@, 0) == Ok::<(PlannedView, int), LeafErrorView>(
                (sa@, buf@.len() as int),
            ),
            Err(e) => (match dec_planned(buf@, 0) {
                Ok((p, n)) => n != buf@.len() && e@.leaf == LeafErrorView::MalformedPlan,
                Err(le) => e@.leaf == le,
            }) && e@.chain.len() == 0,
        },
{
    match decode_planned(buf, 0) {
        Ok((sa, n)) => {
            if n == buf.len() {
                Ok(sa)
            } else {
                Err(ActionError::Leaf { error: LeafError::MalformedPlan })
            }
        },
        Err(e) => Err(e),
    }
}

fn decode_planned(buf: &Vec<u8>, pos: usize) -> (r: Result<(StatefulAction, usize), ActionError>)
    ensures
        match r {
            Ok((sa, n)) => dec_planned(buf@, pos as int) == Ok::<
                (PlannedView, int),
                LeafErrorView,
            >((sa@, n as int)) && pos < n <= buf@.len(),
            Err(e) => dec_planned(buf@, pos as int) == Err::<(PlannedView, int), LeafErrorView>(
                e@.leaf,
            ) && e@.chain.len() == 0,
        },
    decreases buf@.len() - pos, 1int,
{
    if pos >= buf.len() {
        return Err(ActionError::Leaf { error: LeafError::MalformedPlan });
    }
    let state = match byte_to_state(buf[pos]) {
        Some(s) => s,
        None => {
            return Err(ActionError::Leaf { error: LeafError::MalformedPlan });
        },
    };
    match decode_action(buf, pos + 1) {
        Ok((a, n)) => Ok((StatefulAction { action: a, state }, n)),
        Err(e) => Err(e),
    }
}

#[verifier::loop_isolation(false)]
fn decode_action(buf: &Vec<u8>, pos: usize) -> (r: Result<(Action, usize), ActionError>)
    ensures
        match r {
            Ok((a, n)) => dec_action(buf@, pos as int) == Ok::<(ActionView, int), LeafErrorView>(
                (a@, n as int),
            ) && pos < n <= buf@.len(),
            Err(e) => dec_action(buf@, pos as int) == Err::<(ActionView, int), LeafErrorView>(
                e@.leaf,
            ) && e@.chain.len() == 0,
        },
    decreases buf@.len() - pos, 0int,
{
    if pos >= buf.len() {
        return Err(ActionError::Leaf { error: LeafError::MalformedPlan });
    }
    let k = buf[pos];
    if k == 1 {
        let (path, p2) = match read_bytes(buf, pos + 1) {
            Ok(x) => x,
            Err(e) => {
                return Err(e);
            },
        };
        let (m, p3) = match read_u64(buf, p2) {
            Ok(x) => x,
            Err(e) => {
                return Err(e);
            },
        };
        if m > u32::MAX as u64 {
            return Err(ActionError::Leaf { error: LeafError::MalformedPlan });
        }
        Ok((Action::CreateDirectory { path, mode: m as u32 }, p3))
    } else if k == 2 {
        let (path, p2) = match read_bytes(buf, pos + 1) {
            Ok(x) => x,
            Err(e) => {
                return Err(e);
            },
        };
        let (m, p3) = match read_u64(buf, p2) {
            Ok(x) => x,
            Err(e) => {
                return Err(e);
            },
        };
        if m > u32::MAX as u64 {
            return Err(ActionError::Leaf { error: LeafError::MalformedPlan });
        }
        let (content, p4) = match read_bytes(buf, p3) {
            Ok(x) => x,
            Err(e) => {
                return Err(e);
            },
        };
        Ok((Action::CreateFile { path, mode: m as u32, content }, p4))
    } else if k == 3 {
        let (cnt, p2) = match read_u64(buf, pos + 1) {
            Ok(x) => x,
            Err(e) => {
                return Err(e);
            },
        };
        if cnt > usize::MAX as u64 {
            return Err(ActionError::Leaf { error: LeafError::MalformedPlan });
        }
        let n_children = cnt as usize;
        let mut children: Vec<StatefulAction> = Vec::new();
        let mut cur = p2;
        let mut remaining = n_children;
        proof {
            assert(view_children(children@) =~= Seq::<PlannedView>::empty());
            let whole = dec_children(buf@, p2 as int, n_children as int);
            if whole is Ok {
                let (t, e) = whole->Ok_0;
                assert(view_children(children@) + t =~= t);
            }
        }
        while remaining > 0
            invariant
                pos < p2 <= cur <= buf@.len(),
                remaining <= n_children,
                match dec_children(buf@, cur as int, remaining as int) {
                    Err(le) => dec_children(buf@, p2 as int, n_children as int) == Err::<
                        (Seq<PlannedView>, int),
                        LeafErrorView,
                    >(le),
                    Ok((t, e)) => dec_children(buf@, p2 as int, n_children as int) == Ok::<
                        (Seq<PlannedView>, int),
                        LeafErrorView,
                    >((view_children(children@) + t, e)),
                },
            decreases remaining,
        {
            let (c, nx) = match decode_planned(buf, cur) {
                Ok(x) => x,
                Err(e) => {
                    proof {
                        assert(dec_children(buf@, cur as int, remaining as int)
                            == Err::<(Seq<PlannedView>, int), LeafErrorView>(e@.leaf));
                        assert(dec_children(buf@, p2 as int, n_children as int)
                            == Err::<(Seq<PlannedView>, int), LeafErrorView>(e@.leaf));
                        assert(n_children as int == cnt as int);
                        assert(dec_action(buf@, pos as int)
                            == Err::<(ActionView, int), LeafErrorView>(e@.leaf));
                    }
                    return Err(e);
                },
            };
            proof {
                crate::action::lemma_view_children_push(children@, c);
                let inner = dec_children(buf@, nx as int, (remaining - 1) as int);
                if inner is Ok {
                    let (t, e) = inner->Ok_0;
                    assert((view_children(children@) + seq![view_planned(c)]) + t
                        =~= view_children(children@) + (seq![view_planned(c)] + t));
                }
            }
            children.push(c);
            cur = nx;
            remaining -= 1;
        }
        proof {
            assert(view_children(children@) + Seq::<PlannedView>::empty()
                =~= view_children(children@));
        }
        Ok((Action::Composite { tag: ActionTag::PlaceNixConfiguration, children }, cur))
    } else {
        Err(ActionError::Leaf { error: LeafError::UnknownActionKind { code: k } })
    }
}

} // verus!
