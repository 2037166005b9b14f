//! The snapshot emitter: stable identity, partition of the dynamic parts,
//! per-target update closures, and the assembled snapshot.

use vstd::prelude::*;

use crate::ast::{children_v, elem_v, JsExpr, JsExprV, JsxChild, JsxChildV, JsxElem, JsxElemV};
use crate::attr_name::{AttrName, AttrNameV};
use crate::diag::{err_v, CompileError, CompileErrorV, DiagLevel, Diagnostics, DiagnosticV};
use crate::extract::{
    empty_state_v, extract_elem_v, extract_element, state_v, ExtractState, ExtractStateV,
};
use crate::hashes::{build_uid, calc_hash, hex_of, sha1_str_of, uid_v};
use crate::jsx::is_tag_v;
use crate::marker::{mark_elem_v, mark_element};
use crate::snapshot::{
    lemma_parts_v, lemma_slot_entries_v, lemma_stmts_v, lemma_updaters_v, lemma_values_v,
    part_index_v, part_is_attr_like_v, part_v, parts_v, slot_entries_v, slot_entry_v,
    slot_spec_v, snapshot_v, stmt_v, stmts_v, updater_v, updaters_v, value_entry_v, values_v,
    CreateKindV, DynamicPart, DynamicPartV, SlotEntry, SlotEntryV, SlotKind, SlotSpec,
    SlotSpecV, Snapshot, SnapshotV, Stmt, StmtV, Updater, UpdaterV, ValueEntry, ValueEntryV,
};
use crate::style::{CssPropertyTable, CssPropertyV};
use crate::target::TransformTarget;
use crate::strutil::str_eq;

verus! {

// ---------------------------------------------------------------------------
// Partition of the parts.
// ---------------------------------------------------------------------------

pub open spec fn attr_parts_v(ps: Seq<DynamicPartV>, i: int, out: Seq<DynamicPartV>) -> Seq<
    DynamicPartV,
>
    decreases ps.len() - i,
{
    if i < 0 || i >= ps.len() {
        out
    } else if part_is_attr_like_v(ps[i]) {
        attr_parts_v(ps, i + 1, out.push(ps[i]))
    } else {
        attr_parts_v(ps, i + 1, out)
    }
}

pub open spec fn struct_parts_v(ps: Seq<DynamicPartV>, i: int, out: Seq<DynamicPartV>) -> Seq<
    DynamicPartV,
>
    decreases ps.len() - i,
{
    if i < 0 || i >= ps.len() {
        out
    } else if !part_is_attr_like_v(ps[i]) {
        struct_parts_v(ps, i + 1, out.push(ps[i]))
    } else {
        struct_parts_v(ps, i + 1, out)
    }
}

// ---------------------------------------------------------------------------
// Updaters and values.
// ---------------------------------------------------------------------------

/// The updater of one attribute-like part at its expression index, for the
/// LEPUS and MIXED targets.
pub open spec fn updater_of_v(p: DynamicPartV, exp_index: int) -> UpdaterV {
    match p {
        DynamicPartV::Attr(_, ei, name) => match name {
            AttrNameV::Attr(n) => UpdaterV::SetAttr { element_index: ei, name: n, exp_index },
            AttrNameV::TimingFlag => UpdaterV::SetTimingFlag { element_index: ei, exp_index },
            AttrNameV::Dataset(n) => UpdaterV::AddDataset {
                element_index: ei,
                name: n,
                exp_index,
            },
            AttrNameV::Style => UpdaterV::SetInlineStyles { element_index: ei, exp_index },
            AttrNameV::ParsedStyle(ids) => UpdaterV::ParsedStyles {
                element_index: ei,
                exp_index,
                ids,
            },
            AttrNameV::Class => UpdaterV::SetClasses { element_index: ei, exp_index },
            AttrNameV::ID => UpdaterV::SetId { element_index: ei, exp_index },
            AttrNameV::Event(t, n) => UpdaterV::Event {
                element_index: ei,
                event_type: t,
                event_name: n,
            },
            AttrNameV::WorkletEvent(w, t, n) => UpdaterV::WorkletEvent {
                element_index: ei,
                worklet_type: w,
                event_type: t,
                event_name: n,
            },
            AttrNameV::Ref => UpdaterV::UpdateRef { element_index: ei },
            AttrNameV::WorkletRef(w) => UpdaterV::UpdateWorkletRef {
                element_index: ei,
                worklet_type: w,
            },
            AttrNameV::ListItemPlatformInfo => UpdaterV::UpdateListItemPlatformInfo {
                element_index: ei,
            },
            AttrNameV::Gesture(ns) => UpdaterV::UpdateGesture {
                element_index: ei,
                worklet_type: ns,
            },
        },
        DynamicPartV::Spread(_, ei) => UpdaterV::UpdateSpread { element_index: ei },
        // structural parts receive no updater
        DynamicPartV::Slot(_, ei) => UpdaterV::UpdateSpread { element_index: ei },
        DynamicPartV::Children(_, ei) => UpdaterV::UpdateSpread { element_index: ei },
        DynamicPartV::ListChildren(_, ei) => UpdaterV::UpdateSpread { element_index: ei },
    }
}

pub open spec fn updaters_of_v(aps: Seq<DynamicPartV>, i: int, out: Seq<UpdaterV>) -> Seq<
    UpdaterV,
>
    decreases aps.len() - i,
{
    if i < 0 || i >= aps.len() {
        out
    } else {
        updaters_of_v(aps, i + 1, out.push(updater_of_v(aps[i], i)))
    }
}

/// The values-array entry of one attribute-like part.
pub open spec fn value_of_v(p: DynamicPartV, target: TransformTarget) -> ValueEntryV {
    match p {
        DynamicPartV::Attr(v, _, name) => match name {
            AttrNameV::Event(_, _) => if target == TransformTarget::LEPUS {
                ValueEntryV::EventStub
            } else {
                ValueEntryV::Plain(v)
            },
            AttrNameV::Ref => ValueEntryV::TransformRef(v),
            _ => ValueEntryV::Plain(v),
        },
        DynamicPartV::Spread(o, _) => ValueEntryV::Plain(JsExprV::Object(o)),
        DynamicPartV::Slot(_, _) => ValueEntryV::EventStub,  // unreachable: attr-like only
        DynamicPartV::Children(_, _) => ValueEntryV::EventStub,
        DynamicPartV::ListChildren(_, _) => ValueEntryV::EventStub,
    }
}

pub open spec fn values_of_v(
    aps: Seq<DynamicPartV>,
    i: int,
    target: TransformTarget,
    out: Seq<ValueEntryV>,
) -> Seq<ValueEntryV>
    decreases aps.len() - i,
{
    if i < 0 || i >= aps.len() {
        out
    } else {
        values_of_v(aps, i + 1, target, out.push(value_of_v(aps[i], target)))
    }
}

// ---------------------------------------------------------------------------
// The slot descriptor and the replacement node's children.
// ---------------------------------------------------------------------------

pub open spec fn slot_kind_of_v(p: DynamicPartV) -> SlotKind {
    match p {
        DynamicPartV::Slot(_, _) => SlotKind::SlotHere,
        DynamicPartV::ListChildren(_, _) => SlotKind::ListChildrenHere,
        _ => SlotKind::ChildrenHere,
    }
}

pub open spec fn slot_entries_of_v(sps: Seq<DynamicPartV>, i: int, out: Seq<SlotEntryV>) -> Seq<
    SlotEntryV,
>
    decreases sps.len() - i,
{
    if i < 0 || i >= sps.len() {
        out
    } else {
        slot_entries_of_v(
            sps,
            i + 1,
            out.push(
                SlotEntryV { kind: slot_kind_of_v(sps[i]), element_index: part_index_v(sps[i]) },
            ),
        )
    }
}

/// A structural part's payload as a child of the replacement node.
pub open spec fn slot_child_of_v(p: DynamicPartV) -> JsxChildV {
    match p {
        DynamicPartV::Slot(el, _) => JsxChildV::Elem(el),
        DynamicPartV::Children(e, _) => match e {
            JsExprV::Jsx(el) => JsxChildV::Elem(el),
            other => JsxChildV::ExprChild(other),
        },
        DynamicPartV::ListChildren(e, _) => match e {
            JsExprV::Jsx(el) => JsxChildV::Elem(el),
            other => JsxChildV::ExprChild(other),
        },
        _ => JsxChildV::EmptyExprChild,  // unreachable: structural only
    }
}

pub open spec fn slot_children_of_v(sps: Seq<DynamicPartV>, i: int, out: Seq<JsxChildV>) -> Seq<
    JsxChildV,
>
    decreases sps.len() - i,
{
    if i < 0 || i >= sps.len() {
        out
    } else {
        slot_children_of_v(sps, i + 1, out.push(slot_child_of_v(sps[i])))
    }
}

/// The slot descriptor and the replacement children: no structural parts
/// yield none; exactly one `Children` part at element zero takes the
/// runtime's single-children fast path; anything else gets one descriptor
/// entry per part.
pub open spec fn slots_of_v(sps: Seq<DynamicPartV>) -> (SlotSpecV, Seq<JsxChildV>) {
    if sps.len() == 0 {
        (SlotSpecV::NoSlots, Seq::empty())
    } else if sps.len() == 1 && (sps[0] matches DynamicPartV::Children(_, z) && z == 0) {
        (SlotSpecV::SingleChildren, seq![slot_child_of_v(sps[0])])
    } else {
        (
            SlotSpecV::Entries(slot_entries_of_v(sps, 0, Seq::empty())),
            slot_children_of_v(sps, 0, Seq::empty()),
        )
    }
}

// ---------------------------------------------------------------------------
// The whole compilation of one root.
// ---------------------------------------------------------------------------

pub struct CompileOutcomeV {
    pub result: Result<SnapshotV, CompileErrorV>,
    pub diags: Seq<DiagnosticV>,
}

/// What compiling one JSX root yields: the marked tree is walked, the
/// parts are partitioned, and the snapshot is assembled. `counter` is the
/// per-file ordinal of this snapshot, starting at one.
pub open spec fn compile_v(
    el: JsxElemV,
    filename_hash: Seq<char>,
    content_hash: Seq<char>,
    counter: nat,
    target: TransformTarget,
    css_id: Option<u32>,
    table: Seq<CssPropertyV>,
    diags0: Seq<DiagnosticV>,
) -> CompileOutcomeV {
    if is_tag_v(el, "component"@) {
        CompileOutcomeV {
            result: Result::Err(CompileErrorV::DisallowedTag("component"@)),
            diags: diags0.push(
                DiagnosticV {
                    level: DiagLevel::Error,
                    message: "<component /> is not supported"@,
                },
            ),
        }
    } else {
        let m = mark_elem_v(el, 0);
        let start = ExtractStateV { diags: diags0, ..empty_state_v() };
        let o = extract_elem_v(m.0, Option::None, m.1, table, start);
        match o.err {
            Option::Some(e) => CompileOutcomeV { result: Result::Err(e), diags: o.st.diags },
            Option::None => {
                let st = ExtractStateV {
                    stmts: o.st.stmts.push(StmtV::ReturnElements),
                    ..o.st
                };
                let aps = attr_parts_v(st.parts, 0, Seq::empty());
                let sps = struct_parts_v(st.parts, 0, Seq::empty());
                let slots = slots_of_v(sps);
                CompileOutcomeV {
                    result: Result::Ok(
                        SnapshotV {
                            uid: uid_v(filename_hash, content_hash, counter),
                            creator: if target == TransformTarget::JS {
                                Option::None
                            } else {
                                Option::Some(st.stmts)
                            },
                            element_count: st.element_index,
                            has_instance_param: st.uses_instance,
                            updaters: if target == TransformTarget::JS || aps.len() == 0 {
                                Option::None
                            } else {
                                Option::Some(updaters_of_v(aps, 0, Seq::empty()))
                            },
                            slots: slots.0,
                            css_id,
                            values: if aps.len() == 0 {
                                Option::None
                            } else {
                                Option::Some(values_of_v(aps, 0, target, Seq::empty()))
                            },
                            key: st.key,
                            self_closing: m.1 == 0,
                            children: slots.1,
                        },
                    ),
                    diags: st.diags,
                }
            },
        }
    }
}


// ---------------------------------------------------------------------------
// Executable emitter.
// ---------------------------------------------------------------------------

fn is_attr_like(p: &DynamicPart) -> (r: bool)
    ensures
        r == part_is_attr_like_v(part_v(*p)),
{
    match p {
        DynamicPart::Attr(_, _, _) => true,
        DynamicPart::Spread(_, _) => true,
        _ => false,
    }
}

/// Partitions the parts into attribute-like and structural, keeping order.
fn partition_parts(parts: Vec<DynamicPart>) -> (r: (Vec<DynamicPart>, Vec<DynamicPart>))
    ensures
        parts_v(r.0@) == attr_parts_v(parts_v(parts@), 0, Seq::empty()),
        parts_v(r.1@) == struct_parts_v(parts_v(parts@), 0, Seq::empty()),
{
    let ghost pv = parts_v(parts@);
    let mut aps: Vec<DynamicPart> = Vec::new();
    let mut sps: Vec<DynamicPart> = Vec::new();
    let mut rest = parts;
    let mut i: usize = 0;
    let n = rest.len();
    let ghost whole = rest@;
    proof {
        lemma_parts_v(whole);
        assert(parts_v(aps@) =~= Seq::<DynamicPartV>::empty());
        assert(parts_v(sps@) =~= Seq::<DynamicPartV>::empty());
    }
    while i < n
        invariant
            i <= n,
            n == whole.len(),
            pv == parts_v(whole),
            pv.len() == n,
            rest@ =~= whole.skip(i as int),
            attr_parts_v(pv, i as int, parts_v(aps@)) == attr_parts_v(pv, 0, Seq::empty()),
            struct_parts_v(pv, i as int, parts_v(sps@)) == struct_parts_v(pv, 0, Seq::empty()),
        decreases n - i,
    {
        proof {
            lemma_parts_v(whole);
            assert(whole.skip(i as int)[0] == whole[i as int]);
            assert(whole.skip(i as int).drop_first() =~= whole.skip(i + 1));
            assert(part_v(whole[i as int]) == pv[i as int]);
        }
        let p = rest.remove(0);
        proof {
            assert(p == whole[i as int]);
        }
        if is_attr_like(&p) {
            let ghost prev = aps@;
            aps.push(p);
            proof {
                assert(aps@.drop_last() =~= prev);
            }
        } else {
            let ghost prev = sps@;
            sps.push(p);
            proof {
                assert(sps@.drop_last() =~= prev);
            }
        }
        proof {
            assert(rest@ =~= whole.skip(i + 1));
        }
        i += 1;
    }
    (aps, sps)
}

/// One updater per attribute-like part, in order; consumes the parts and
/// returns the value entries beside them.
fn build_updaters_and_values(aps: Vec<DynamicPart>, target: TransformTarget) -> (r: (
    Vec<Updater>,
    Vec<ValueEntry>,
))
    ensures
        updaters_v(r.0@) == updaters_of_v(parts_v(aps@), 0, Seq::empty()),
        values_v(r.1@) == values_of_v(parts_v(aps@), 0, target, Seq::empty()),
{
    let ghost pv = parts_v(aps@);
    let mut ups: Vec<Updater> = Vec::new();
    let mut vals: Vec<ValueEntry> = Vec::new();
    let mut rest = aps;
    let mut i: usize = 0;
    let n = rest.len();
    let ghost whole = rest@;
    proof {
        lemma_parts_v(whole);
        assert(updaters_v(ups@) =~= Seq::<UpdaterV>::empty());
        assert(values_v(vals@) =~= Seq::<ValueEntryV>::empty());
    }
    while i < n
        invariant
            i <= n,
            n == whole.len(),
            pv == parts_v(whole),
            pv.len() == n,
            rest@ =~= whole.skip(i as int),
            ups@.len() == i,
            updaters_of_v(pv, i as int, updaters_v(ups@)) == updaters_of_v(pv, 0, Seq::empty()),
            values_of_v(pv, i as int, target, values_v(vals@)) == values_of_v(
                pv,
                0,
                target,
                Seq::empty(),
            ),
        decreases n - i,
    {
        proof {
            lemma_parts_v(whole);
            assert(whole.skip(i as int)[0] == whole[i as int]);
            assert(whole.skip(i as int).drop_first() =~= whole.skip(i + 1));
            assert(part_v(whole[i as int]) == pv[i as int]);
        }
        let p = rest.remove(0);
        proof {
            assert(p == whole[i as int]);
        }
        let ghost prev_ups = ups@;
        let ghost prev_vals = vals@;
        match p {
            DynamicPart::Attr(v, ei, name) => {
                let is_event = match &name {
                    AttrName::Event(_, _) => true,
                    _ => false,
                };
                let is_ref = match &name {
                    AttrName::Ref => true,
                    _ => false,
                };
                let up: Updater = match name {
                    AttrName::Attr(n2) => Updater::SetAttr {
                        element_index: ei,
                        name: n2,
                        exp_index: i,
                    },
                    AttrName::TimingFlag => Updater::SetTimingFlag {
                        element_index: ei,
                        exp_index: i,
                    },
                    AttrName::Dataset(n2) => Updater::AddDataset {
                        element_index: ei,
                        name: n2,
                        exp_index: i,
                    },
                    AttrName::Style => Updater::SetInlineStyles {
                        element_index: ei,
                        exp_index: i,
                    },
                    AttrName::ParsedStyle(ids) => Updater::ParsedStyles {
                        element_index: ei,
                        exp_index: i,
                        ids,
                    },
                    AttrName::Class => Updater::SetClasses {
                        element_index: ei,
                        exp_index: i,
                    },
                    AttrName::ID => Updater::SetId { element_index: ei, exp_index: i },
                    AttrName::Event(t, n2) => Updater::Event {
                        element_index: ei,
                        event_type: t,
                        event_name: n2,
                    },
                    AttrName::WorkletEvent(w, t, n2) => Updater::WorkletEvent {
                        element_index: ei,
                        worklet_type: w,
                        event_type: t,
                        event_name: n2,
                    },
                    AttrName::Ref => Updater::UpdateRef { element_index: ei },
                    AttrName::WorkletRef(w) => Updater::UpdateWorkletRef {
                        element_index: ei,
                        worklet_type: w,
                    },
                    AttrName::ListItemPlatformInfo => Updater::UpdateListItemPlatformInfo {
                        element_index: ei,
                    },
                    AttrName::Gesture(ns) => Updater::UpdateGesture {
                        element_index: ei,
                        worklet_type: ns,
                    },
                };
                ups.push(up);
                let entry: ValueEntry = if is_event {
                    if target == TransformTarget::LEPUS {
                        ValueEntry::EventStub
                    } else {
                        ValueEntry::Plain(v)
                    }
                } else if is_ref {
                    ValueEntry::TransformRef(v)
                } else {
                    ValueEntry::Plain(v)
                };
                vals.push(entry);
            },
            DynamicPart::Spread(o, ei) => {
                ups.push(Updater::UpdateSpread { element_index: ei });
                vals.push(ValueEntry::Plain(JsExpr::Object(o)));
            },
            other => {
                // structural parts never reach this fold
                let ei = match &other {
                    DynamicPart::Slot(_, e) => *e,
                    DynamicPart::Children(_, e) => *e,
                    DynamicPart::ListChildren(_, e) => *e,
                    DynamicPart::Attr(_, e, _) => *e,
                    DynamicPart::Spread(_, e) => *e,
                };
                ups.push(Updater::UpdateSpread { element_index: ei });
                vals.push(ValueEntry::EventStub);
            },
        }
        proof {
            assert(ups@.drop_last() =~= prev_ups);
            assert(vals@.drop_last() =~= prev_vals);
            assert(updater_v(ups@.last()) == updater_of_v(pv[i as int], i as int));
            assert(value_entry_v(vals@.last()) == value_of_v(pv[i as int], target));
            assert(updaters_v(ups@) == updaters_v(prev_ups).push(updater_v(ups@.last())));
            assert(values_v(vals@) == values_v(prev_vals).push(value_entry_v(vals@.last())));
            assert(rest@ =~= whole.skip(i + 1));
        }
        i += 1;
    }
    (ups, vals)
}

/// The slot descriptor and the replacement children from the structural
/// parts.
fn build_slots(sps: Vec<DynamicPart>) -> (r: (SlotSpec, Vec<JsxChild>))
    ensures
        ({
            let so = slots_of_v(parts_v(sps@));
            slot_spec_v(r.0) == so.0 && children_v(r.1@) == so.1
        }),
{
    let ghost pv = parts_v(sps@);
    proof {
        lemma_parts_v(sps@);
    }
    let n = sps.len();
    if n == 0 {
        proof {
            assert(children_v(Seq::<JsxChild>::empty()) =~= Seq::<JsxChildV>::empty());
            assert(slot_entries_v(Seq::<SlotEntry>::empty()) =~= Seq::<SlotEntryV>::empty());
        }
        return (SlotSpec::NoSlots, Vec::new());
    }
    let single = if n == 1 {
        match &sps[0] {
            DynamicPart::Children(_, z) => *z == 0,
            _ => false,
        }
    } else {
        false
    };
    if single {
        let mut sps = sps;
        let p = sps.remove(0);
        let child: JsxChild = match p {
            DynamicPart::Children(e, _) => {
                match e {
                    JsExpr::Jsx(el) => JsxChild::Elem(el),
                    other => JsxChild::ExprChild(other),
                }
            },
            _ => {
                proof {
                    assert(false);
                }
                JsxChild::EmptyExprChild
            },
        };
        let mut children: Vec<JsxChild> = Vec::new();
        children.push(child);
        proof {
            assert(children@.drop_last() =~= Seq::<JsxChild>::empty());
            assert(children_v(children@.drop_last()) =~= Seq::<JsxChildV>::empty());
            assert(children_v(children@) == children_v(children@.drop_last()).push(
                crate::ast::child_v(children@.last()),
            ));
            assert(children_v(children@) =~~= seq![slot_child_of_v(pv[0])]);
        }
        return (SlotSpec::SingleChildren, children);
    }
    // the general form
    let mut entries: Vec<SlotEntry> = Vec::new();
    let mut children: Vec<JsxChild> = Vec::new();
    let mut rest = sps;
    let mut i: usize = 0;
    let ghost whole = rest@;
    proof {
        lemma_parts_v(whole);
        assert(slot_entries_v(entries@) =~= Seq::<SlotEntryV>::empty());
        assert(children_v(children@) =~= Seq::<JsxChildV>::empty());
    }
    while i < n
        invariant
            i <= n,
            n == whole.len(),
            pv == parts_v(whole),
            pv.len() == n,
            rest@ =~= whole.skip(i as int),
            slot_entries_of_v(pv, i as int, slot_entries_v(entries@)) == slot_entries_of_v(
                pv,
                0,
                Seq::empty(),
            ),
            slot_children_of_v(pv, i as int, children_v(children@)) == slot_children_of_v(
                pv,
                0,
                Seq::empty(),
            ),
        decreases n - i,
    {
        proof {
            lemma_parts_v(whole);
            assert(whole.skip(i as int)[0] == whole[i as int]);
            assert(whole.skip(i as int).drop_first() =~= whole.skip(i + 1));
            assert(part_v(whole[i as int]) == pv[i as int]);
        }
        let p = rest.remove(0);
        proof {
            assert(p == whole[i as int]);
        }
        let ghost prev_entries = entries@;
        let ghost prev_children = children@;
        let (kind, ei): (SlotKind, usize) = match &p {
            DynamicPart::Slot(_, e) => (SlotKind::SlotHere, *e),
            DynamicPart::ListChildren(_, e) => (SlotKind::ListChildrenHere, *e),
            DynamicPart::Children(_, e) => (SlotKind::ChildrenHere, *e),
            DynamicPart::Attr(_, e, _) => (SlotKind::ChildrenHere, *e),
            DynamicPart::Spread(_, e) => (SlotKind::ChildrenHere, *e),
        };
        entries.push(SlotEntry { kind, element_index: ei });
        let child: JsxChild = match p {
            DynamicPart::Slot(el, _) => JsxChild::Elem(el),
            DynamicPart::Children(e, _) => match e {
                JsExpr::Jsx(el) => JsxChild::Elem(el),
                other => JsxChild::ExprChild(other),
            },
            DynamicPart::ListChildren(e, _) => match e {
                JsExpr::Jsx(el) => JsxChild::Elem(el),
                other => JsxChild::ExprChild(other),
            },
            _ => JsxChild::EmptyExprChild,
        };
        children.push(child);
        proof {
            assert(entries@.drop_last() =~= prev_entries);
            assert(children@.drop_last() =~= prev_children);
            assert(slot_entry_v(entries@.last()) == SlotEntryV {
                kind: slot_kind_of_v(pv[i as int]),
                element_index: part_index_v(pv[i as int]),
            });
            assert(crate::ast::child_v(children@.last()) == slot_child_of_v(pv[i as int]));
            assert(slot_entries_v(entries@) == slot_entries_v(prev_entries).push(
                slot_entry_v(entries@.last()),
            ));
            assert(children_v(children@) == children_v(prev_children).push(
                crate::ast::child_v(children@.last()),
            ));
            assert(rest@ =~= whole.skip(i + 1));
        }
        i += 1;
    }
    (SlotSpec::Entries(entries), children)
}

// ---------------------------------------------------------------------------
// The compiler context.
// ---------------------------------------------------------------------------

/// Per-file compiler state: the memoized filename hash, the content hash,
/// the compile target, the stylesheet id, the CSS property table, and the
/// per-file snapshot counter.
pub struct Compiler {
    pub filename_hash: String,
    pub content_hash: String,
    pub target: TransformTarget,
    pub css_id: Option<u32>,
    pub table: CssPropertyTable,
    pub snapshot_counter: u32,
}

impl Compiler {
    /// Builds a compiler for one file; the filename hash is computed once
    /// here.
    pub fn new(
        filename: &str,
        content_hash: &str,
        target: TransformTarget,
        css_id: Option<u32>,
        table: CssPropertyTable,
    ) -> (r: Compiler)
        ensures
            r.filename_hash@ == hex_of(sha1_str_of(filename@)).subrange(0, 5),
            r.content_hash@ == content_hash@,
            r.target == target,
            r.css_id == css_id,
            r.table == table,
            r.snapshot_counter == 0,
    {
        Compiler {
            filename_hash: calc_hash(filename),
            content_hash: content_hash.to_owned(),
            target,
            css_id,
            table,
            snapshot_counter: 0,
        }
    }

    /// Compiles one JSX root into a snapshot, counting it against this
    /// file. The root must be a concrete element: not a component
    /// reference, not the reserved `page`, and not the synthetic
    /// `wrapper`, which the surrounding transform never hands in.
    pub fn compile_root(&mut self, el: JsxElem, diags: &mut Diagnostics) -> (r: Result<
        Snapshot,
        CompileError,
    >)
        requires
            old(self).snapshot_counter < u32::MAX,
            !crate::jsx::is_custom_v(elem_v(el)),
            !is_tag_v(elem_v(el), "wrapper"@),
        ensures
            final(self).snapshot_counter == old(self).snapshot_counter + 1,
            final(self).filename_hash == old(self).filename_hash,
            final(self).content_hash == old(self).content_hash,
            final(self).target == old(self).target,
            final(self).css_id == old(self).css_id,
            final(self).table == old(self).table,
            ({
                let o = compile_v(
                    elem_v(el),
                    old(self).filename_hash@,
                    old(self).content_hash@,
                    (old(self).snapshot_counter + 1) as nat,
                    old(self).target,
                    old(self).css_id,
                    old(self).table@,
                    old(diags)@,
                );
                &&& final(diags)@ == o.diags
                &&& (r matches Result::Ok(s) ==> o.result matches Result::Ok(sv) && snapshot_v(s)
                    == sv)
                &&& (r matches Result::Err(e) ==> o.result matches Result::Err(ev) && err_v(e)
                    == ev)
                &&& (r is Ok) == (o.result is Ok)
            }),
    {
        self.snapshot_counter = self.snapshot_counter + 1;
        let is_component = match &el.name {
            crate::ast::ElemName::Tag(t) => str_eq(t, "component"),
            crate::ast::ElemName::Component(_) => false,
        };
        if is_component {
            diags.error("<component /> is not supported");
            return Result::Err(CompileError::DisallowedTag(String::from_str("component")));
        }
        let uid = build_uid(&self.filename_hash, &self.content_hash, self.snapshot_counter);
        let marked = mark_element(el, 0);
        let cnt = marked.1;
        let mut st = ExtractState::new();
        proof {
            assert(state_v(st, diags@) == (ExtractStateV {
                diags: old(diags)@,
                ..empty_state_v()
            }));
        }
        match extract_element(marked.0, Option::None, cnt, &self.table, &mut st, diags) {
            Result::Ok(()) => {},
            Result::Err(e) => {
                return Result::Err(e);
            },
        }
        st.push_return_stmt();
        let ExtractState { element_index, stmts, parts, key, page_declared: _, uses_instance } =
            st;
        let (aps, sps) = partition_parts(parts);
        let has_attr_parts = aps.len() > 0;
        let (ups, vals) = build_updaters_and_values(aps, self.target);
        let (slots, children) = build_slots(sps);
        let snapshot = Snapshot {
            uid,
            creator: if self.target == TransformTarget::JS {
                Option::None
            } else {
                Option::Some(stmts)
            },
            element_count: element_index,
            has_instance_param: uses_instance,
            updaters: if self.target == TransformTarget::JS || !has_attr_parts {
                Option::None
            } else {
                Option::Some(ups)
            },
            slots,
            css_id: self.css_id,
            values: if !has_attr_parts {
                Option::None
            } else {
                Option::Some(vals)
            },
            key,
            self_closing: cnt == 0,
            children,
        };
        Result::Ok(snapshot)
    }
}

} // verus!
