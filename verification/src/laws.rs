//! The laws of the compiler, stated and proved over the same spec
//! functions that the executable functions are verified against.

use vstd::prelude::*;

use crate::ast::{JsxChildV, JsxElemV};
use crate::attr_name::AttrNameV;
use crate::diag::{CompileErrorV, DiagnosticV};
use crate::emit::{
    attr_parts_v, compile_v, slot_entries_of_v, slots_of_v, struct_parts_v, updater_of_v,
    updaters_of_v,
};
use crate::extract::{
    attrs_fold_v, children_fold_v, empty_state_v, extract_child_v, extract_core_v,
    extract_elem_v, pick_key_acc, pick_key_v, process_attr_v, simple_wrapper_v, style_attr_v,
    style_fold_v, ExtractStateV,
};
use crate::marker::{mark_elem_v, sat_inc_v};
use crate::snapshot::{
    part_index_v, part_is_attr_like_v, DynamicPartV, SlotEntryV, SlotSpecV, StmtV, UpdaterV,
};
use crate::style::{CssPropertyV, StylePropV};
use crate::target::TransformTarget;

verus! {

// ---------------------------------------------------------------------------
// Determinism.
// ---------------------------------------------------------------------------

/// Identical inputs compiled twice yield identical snapshots: the uid, the
/// dynamic-part order and with it every updater, value and slot entry are
/// functions of the file hashes, the per-file counter, the target, the
/// stylesheet id, the property table and the source tree alone.
pub proof fn lemma_compile_deterministic(
    el1: JsxElemV,
    el2: JsxElemV,
    fh1: Seq<char>,
    fh2: Seq<char>,
    ch1: Seq<char>,
    ch2: Seq<char>,
    counter1: nat,
    counter2: nat,
    target1: TransformTarget,
    target2: TransformTarget,
    css1: Option<u32>,
    css2: Option<u32>,
    table1: Seq<CssPropertyV>,
    table2: Seq<CssPropertyV>,
    d1: Seq<DiagnosticV>,
    d2: Seq<DiagnosticV>,
)
    requires
        el1 == el2,
        fh1 == fh2,
        ch1 == ch2,
        counter1 == counter2,
        target1 == target2,
        css1 == css2,
        table1 == table2,
        d1 == d2,
    ensures
        compile_v(el1, fh1, ch1, counter1, target1, css1, table1, d1) == compile_v(
            el2,
            fh2,
            ch2,
            counter2,
            target2,
            css2,
            table2,
            d2,
        ),
{
}

// ---------------------------------------------------------------------------
// Index bounds: every element index referenced by a dynamic part stays
// below the number of elements the creator returns.
// ---------------------------------------------------------------------------

pub open spec fn big_index() -> int {
    usize::MAX as int
}

pub open spec fn parts_bounded_v(ps: Seq<DynamicPartV>, n: int) -> bool {
    forall|j: int| 0 <= j < ps.len() ==> part_index_v(#[trigger] ps[j]) < n
}

/// What the attribute machinery may do to the state: leave the element
/// index alone and push only attribute-like parts at the current element.
pub open spec fn attr_delta_ok(s: ExtractStateV, r: ExtractStateV, idx: int) -> bool {
    &&& r.element_index == s.element_index
    &&& r.parts.len() >= s.parts.len()
    &&& forall|j: int| 0 <= j < s.parts.len() ==> r.parts[j] == #[trigger] s.parts[j]
    &&& forall|j: int|
        s.parts.len() <= j < r.parts.len() ==> part_is_attr_like_v(#[trigger] r.parts[j])
            && part_index_v(r.parts[j]) == idx
}

proof fn lemma_attr_delta_trans(s: ExtractStateV, m: ExtractStateV, r: ExtractStateV, idx: int)
    requires
        attr_delta_ok(s, m, idx),
        attr_delta_ok(m, r, idx),
    ensures
        attr_delta_ok(s, r, idx),
{
    assert forall|j: int|
        s.parts.len() <= j < r.parts.len() implies part_is_attr_like_v(#[trigger] r.parts[j])
        && part_index_v(r.parts[j]) == idx by {
        if j < m.parts.len() {
            assert(r.parts[j] == m.parts[j]);
        }
    }
}

proof fn lemma_style_fold_delta(
    styles: Seq<StylePropV>,
    i: int,
    idx: int,
    bids: Seq<u32>,
    bvals: Seq<crate::ast::JsExprV>,
    s: ExtractStateV,
)
    ensures
        attr_delta_ok(s, style_fold_v(styles, i, idx, bids, bvals, s), idx),
    decreases styles.len() - i,
{
    if i < 0 || i >= styles.len() {
    } else {
        let sp = styles[i];
        if crate::style::is_literal_v(sp.value) {
            let s1 = crate::extract::st_stmt(s, StmtV::AddInlineStyle(idx, sp.id, sp.value));
            lemma_style_fold_delta(styles, i + 1, idx, bids, bvals, s1);
        } else {
            lemma_style_fold_delta(styles, i + 1, idx, bids.push(sp.id), bvals.push(sp.value), s);
        }
    }
}

proof fn lemma_style_attr_delta(
    e: crate::ast::JsExprV,
    idx: int,
    table: Seq<CssPropertyV>,
    s: ExtractStateV,
)
    ensures
        attr_delta_ok(s, style_attr_v(e, idx, table, s), idx),
{
    if crate::style::is_literal_v(e) {
    } else {
        match e {
            crate::ast::JsExprV::Object(o) => {
                let r = crate::style::style_ids_v(o.props, 0, Seq::empty(), table);
                let s1 = if r.1 {
                    crate::extract::st_warn(
                        s,
                        "Unknown css property, fallbak to SetInlineStyle"@,
                    )
                } else {
                    s
                };
                match r.0 {
                    Option::Some(ids) => {
                        let styles = crate::style::style_zip_v(o.props, ids, 0);
                        let s2 = if styles.len() == 0 {
                            crate::extract::st_part(
                                s1,
                                DynamicPartV::Attr(e, idx, AttrNameV::Style),
                            )
                        } else {
                            s1
                        };
                        lemma_style_fold_delta(styles, 0, idx, Seq::empty(), Seq::empty(), s2);
                    },
                    Option::None => {},
                }
            },
            _ => {},
        }
    }
}

proof fn lemma_process_attr_delta(
    a: crate::ast::AttrOrSpreadV,
    idx: int,
    table: Seq<CssPropertyV>,
    s: ExtractStateV,
)
    ensures
        attr_delta_ok(s, process_attr_v(a, idx, table, s).st, idx),
{
    match a {
        crate::ast::AttrOrSpreadV::Spread(_) => {},
        crate::ast::AttrOrSpreadV::Attr(at0) => {
            let val = crate::extract::transform_attr_val_v(at0.val);
            match at0.key {
                crate::ast::AttrKeyV::Ident(name) => {
                    match crate::attr_name::classify_v(name) {
                        AttrNameV::Style => {
                            match val {
                                Option::Some(crate::ast::AttrValV::Expr(e)) => {
                                    lemma_style_attr_delta(e, idx, table, s);
                                },
                                _ => {},
                            }
                        },
                        _ => {},
                    }
                },
                crate::ast::AttrKeyV::Ns(_, _) => {},
            }
        },
    }
}

proof fn lemma_attrs_fold_delta(
    attrs: Seq<crate::ast::AttrOrSpreadV>,
    i: int,
    idx: int,
    table: Seq<CssPropertyV>,
    s: ExtractStateV,
)
    ensures
        attr_delta_ok(s, attrs_fold_v(attrs, i, idx, table, s).st, idx),
    decreases attrs.len() - i,
{
    if i < 0 || i >= attrs.len() {
    } else {
        let r = process_attr_v(attrs[i], idx, table, s);
        lemma_process_attr_delta(attrs[i], idx, table, s);
        match r.err {
            Option::Some(_) => {},
            Option::None => {
                lemma_attrs_fold_delta(attrs, i + 1, idx, table, r.st);
                lemma_attr_delta_trans(s, r.st, attrs_fold_v(attrs, i + 1, idx, table, r.st).st, idx);
            },
        }
    }
}

proof fn lemma_pick_key_delta(
    attrs: Seq<crate::ast::AttrOrSpreadV>,
    i: int,
    out: Seq<crate::ast::AttrOrSpreadV>,
    is_root: bool,
    s: ExtractStateV,
)
    ensures
        pick_key_acc(attrs, i, out, is_root, s).1.parts == s.parts,
        pick_key_acc(attrs, i, out, is_root, s).1.element_index == s.element_index,
    decreases attrs.len() - i,
{
    if i < 0 || i >= attrs.len() {
    } else {
        let is_key = crate::extract::attr_ident_name_v(attrs[i]) == Option::Some("key"@);
        if is_key {
            let s1 = if is_root {
                ExtractStateV {
                    key: match attrs[i] {
                        crate::ast::AttrOrSpreadV::Attr(at) => at.val,
                        crate::ast::AttrOrSpreadV::Spread(_) => s.key,
                    },
                    ..s
                }
            } else {
                crate::extract::st_warn(s, "key is not on root element of snapshot"@)
            };
            lemma_pick_key_delta(attrs, i + 1, out, is_root, s1);
        } else {
            lemma_pick_key_delta(attrs, i + 1, out.push(attrs[i]), is_root, s);
        }
    }
}

/// What any step of the walk may do: grow the element index, keep the old
/// parts as a prefix, and keep every referenced index below the element
/// index, as long as the index never reaches the top of `usize`.
pub open spec fn walk_ok(s: ExtractStateV, r: ExtractStateV) -> bool {
    &&& r.element_index >= s.element_index
    &&& (s.element_index <= big_index() ==> r.element_index <= big_index())
    &&& r.parts.len() >= s.parts.len()
    &&& forall|j: int| 0 <= j < s.parts.len() ==> r.parts[j] == #[trigger] s.parts[j]
    &&& ((parts_bounded_v(s.parts, s.element_index) && s.element_index <= big_index()
        && r.element_index < big_index()) ==> parts_bounded_v(r.parts, r.element_index))
}

proof fn lemma_walk_trans(s: ExtractStateV, m: ExtractStateV, r: ExtractStateV)
    requires
        walk_ok(s, m),
        walk_ok(m, r),
    ensures
        walk_ok(s, r),
{
}

proof fn lemma_simple_wrapper_walk(parent: Option<int>, s: ExtractStateV)
    ensures
        walk_ok(s, simple_wrapper_v(parent, s)),
        simple_wrapper_v(parent, s).element_index == sat_inc_v(s.element_index),
        simple_wrapper_v(parent, s).parts == s.parts,
{
}

pub proof fn lemma_extract_elem_walk(
    el: JsxElemV,
    parent: Option<int>,
    cnt: int,
    table: Seq<CssPropertyV>,
    s: ExtractStateV,
)
    ensures
        walk_ok(s, extract_elem_v(el, parent, cnt, table, s).st),
    decreases el, 3int,
{
    if crate::jsx::is_internal_slot_v(el) && cnt > 1 {
        let s1 = crate::extract::st_part(
            s,
            DynamicPartV::Slot(crate::jsx::unwrap_internal_slot_v(el), s.element_index),
        );
        lemma_simple_wrapper_walk(parent, s1);
    } else if crate::jsx::is_internal_slot_v(el) {
        lemma_extract_core_walk(crate::jsx::unwrap_internal_slot_v(el), parent, cnt, table, s);
    } else {
        lemma_extract_core_walk(el, parent, cnt, table, s);
    }
}

pub proof fn lemma_extract_core_walk(
    el: JsxElemV,
    parent: Option<int>,
    cnt: int,
    table: Seq<CssPropertyV>,
    s: ExtractStateV,
)
    ensures
        walk_ok(s, extract_core_v(el, parent, cnt, table, s).st),
    decreases el, 2int,
{
    if crate::jsx::is_custom_v(el) {
        match parent {
            Option::Some(_) => {
                let s1 = crate::extract::st_part(
                    s,
                    DynamicPartV::Children(crate::ast::JsExprV::Jsx(el), s.element_index),
                );
                lemma_simple_wrapper_walk(parent, s1);
            },
            Option::None => {},
        }
    } else {
        let s0 = if crate::jsx::tag_has_namespace_v(el.name) {
            crate::extract::st_error(s, "JSX Namespace is disabled"@)
        } else {
            s
        };
        let s1 = if !s0.page_declared {
            ExtractStateV {
                page_declared: true,
                ..crate::extract::st_stmt(s0, StmtV::DeclarePageId)
            }
        } else {
            s0
        };
        let idx = s1.element_index;
        let kind = (match el.name {
            crate::ast::ElemNameV::Tag(t) => crate::extract::kind_of_tag_v(t),
            crate::ast::ElemNameV::Component(_) => crate::snapshot::CreateKindV::View,
        });
        let s2 = ExtractStateV {
            uses_instance: s1.uses_instance || (kind is List),
            ..crate::extract::st_bump(crate::extract::st_stmt(s1, StmtV::Create(idx, kind)))
        };
        let attrs1 = crate::extract::apply_flatten_v(el.attrs);
        let has_spread = crate::extract::any_spread_v(attrs1);
        let li = crate::jsx::is_list_item_v(el) && !has_spread;
        let split = if li {
            crate::extract::li_split_v(attrs1)
        } else {
            (attrs1, Seq::<crate::ast::JsxAttrV>::empty())
        };
        let s3 = if li && split.1.len() > 0 {
            crate::extract::st_part(
                s2,
                DynamicPartV::Attr(
                    crate::ast::JsExprV::Object(
                        crate::ast::ObjLitV { props: crate::extract::li_props_v(split.1) },
                    ),
                    idx,
                    AttrNameV::ListItemPlatformInfo,
                ),
            )
        } else {
            s2
        };
        let picked = pick_key_v(split.0, parent is None, s3);
        lemma_pick_key_delta(split.0, 0, Seq::empty(), parent is None, s3);
        let s4 = picked.1;
        let after_attrs = if has_spread {
            crate::extract::ok_v(
                crate::extract::st_part(
                    s4,
                    DynamicPartV::Spread(crate::extract::spread_obj_v(picked.0), idx),
                ),
            )
        } else {
            attrs_fold_v(picked.0, 0, idx, table, s4)
        };
        if !has_spread {
            lemma_attrs_fold_delta(picked.0, 0, idx, table, s4);
        }
        match after_attrs.err {
            Option::Some(_) => {
                lemma_core_prefix_walk(s, s1, s2, s3, s4, after_attrs.st, idx);
            },
            Option::None => {
                lemma_core_prefix_walk(s, s1, s2, s3, s4, after_attrs.st, idx);
                let s5 = after_attrs.st;
                let s6 = (match parent {
                    Option::Some(p) => crate::extract::st_stmt(s5, StmtV::Append(p, idx)),
                    Option::None => s5,
                });
                assert(walk_ok(s, s6));
                let full_dyn = crate::jsx::is_list_v(el) || crate::jsx::children_full_dynamic_v(
                    el,
                );
                if !full_dyn {
                    lemma_children_fold_walk(el.children, 0, Option::Some(idx), cnt, table, s6);
                    lemma_walk_trans(
                        s,
                        s6,
                        children_fold_v(el.children, 0, Option::Some(idx), cnt, table, s6).st,
                    );
                } else {
                    let part = if crate::jsx::is_list_v(el) {
                        DynamicPartV::ListChildren(
                            crate::jsx::children_to_expr_v(el.children),
                            idx,
                        )
                    } else {
                        DynamicPartV::Children(crate::jsx::children_to_expr_v(el.children), idx)
                    };
                    let rfin = crate::extract::st_part(s6, part);
                    assert forall|j: int|
                        s6.parts.len() <= j < rfin.parts.len() implies part_index_v(
                        #[trigger] rfin.parts[j],
                    ) == idx by {}
                    assert(walk_ok(s6, rfin));
                    lemma_walk_trans(s, s6, rfin);
                }
            },
        }
    }
}

/// The state from the element's creation through its attribute processing:
/// the element index moved once past `idx`, and every new part sits at
/// `idx`.
proof fn lemma_core_prefix_walk(
    s: ExtractStateV,
    s1: ExtractStateV,
    s2: ExtractStateV,
    s3: ExtractStateV,
    s4: ExtractStateV,
    s5: ExtractStateV,
    idx: int,
)
    requires
        s1.parts == s.parts,
        s1.element_index == s.element_index,
        idx == s1.element_index,
        s2.element_index == sat_inc_v(idx),
        s2.parts == s1.parts,
        s3.element_index == s2.element_index,
        s3.parts == s2.parts || s3.parts == s2.parts.push(
            DynamicPartV::Attr(
                crate::ast::JsExprV::Object(
                    crate::ast::ObjLitV { props: s3_part_props(s3, s2) },
                ),
                idx,
                AttrNameV::ListItemPlatformInfo,
            ),
        ),
        s4.parts == s3.parts,
        s4.element_index == s3.element_index,
        attr_delta_ok(s4, s5, idx),
    ensures
        walk_ok(s, s5),
        s5.element_index == sat_inc_v(idx),
        forall|j: int|
            s.parts.len() <= j < s5.parts.len() ==> part_index_v(#[trigger] s5.parts[j]) == idx
                && part_is_attr_like_v(s5.parts[j]),
{
    assert forall|j: int|
        s.parts.len() <= j < s5.parts.len() implies part_index_v(#[trigger] s5.parts[j]) == idx
        && part_is_attr_like_v(s5.parts[j]) by {
        if j < s4.parts.len() {
            assert(s5.parts[j] == s4.parts[j]);
        }
    }
    assert forall|j: int|
        0 <= j < s.parts.len() implies s5.parts[j] == #[trigger] s.parts[j] by {
        assert(s5.parts[j] == s4.parts[j]);
    }
    if parts_bounded_v(s.parts, s.element_index) && s.element_index <= big_index()
        && s5.element_index < big_index() {
        assert(sat_inc_v(idx) < big_index());
        assert(idx < sat_inc_v(idx));
        assert forall|j: int| 0 <= j < s5.parts.len() implies part_index_v(
            #[trigger] s5.parts[j],
        ) < s5.element_index by {
            if j < s.parts.len() {
                assert(s5.parts[j] == s.parts[j]);
            }
        }
    }
}

/// Names the platform-info props of the optional hoisted part, so the
/// prefix lemma can speak of either shape.
pub open spec fn s3_part_props(s3: ExtractStateV, s2: ExtractStateV) -> Seq<
    crate::ast::ObjPropV,
> {
    if s3.parts.len() > s2.parts.len() {
        match s3.parts.last() {
            DynamicPartV::Attr(v, _, _) => match v {
                crate::ast::JsExprV::Object(o) => o.props,
                _ => Seq::empty(),
            },
            _ => Seq::empty(),
        }
    } else {
        Seq::empty()
    }
}

pub proof fn lemma_extract_child_walk(
    c: JsxChildV,
    parent: Option<int>,
    cnt: int,
    table: Seq<CssPropertyV>,
    s: ExtractStateV,
)
    ensures
        walk_ok(s, extract_child_v(c, parent, cnt, table, s).st),
    decreases c, 0int,
{
    match c {
        JsxChildV::Elem(e) => {
            lemma_extract_elem_walk(e, parent, cnt, table, s);
        },
        JsxChildV::Text(_) => {},
        JsxChildV::ExprChild(e) => {
            let s1 = crate::extract::st_part(
                s,
                DynamicPartV::Children(e, s.element_index),
            );
            lemma_simple_wrapper_walk(parent, s1);
        },
        JsxChildV::EmptyExprChild => {},
        JsxChildV::Frag(inner) => {
            lemma_children_fold_walk(inner, 0, parent, cnt, table, s);
        },
    }
}

pub proof fn lemma_children_fold_walk(
    cs: Seq<JsxChildV>,
    i: int,
    parent: Option<int>,
    cnt: int,
    table: Seq<CssPropertyV>,
    s: ExtractStateV,
)
    ensures
        walk_ok(s, children_fold_v(cs, i, parent, cnt, table, s).st),
    decreases cs, 1int, cs.len() - i,
{
    if i < 0 || i >= cs.len() {
    } else {
        let r = extract_child_v(cs[i], parent, cnt, table, s);
        lemma_extract_child_walk(cs[i], parent, cnt, table, s);
        match r.err {
            Option::Some(_) => {},
            Option::None => {
                lemma_children_fold_walk(cs, i + 1, parent, cnt, table, r.st);
                lemma_walk_trans(s, r.st, children_fold_v(cs, i + 1, parent, cnt, table, r.st).st);
            },
        }
    }
}


// ---------------------------------------------------------------------------
// From bounded parts to bounded updaters and slot entries.
// ---------------------------------------------------------------------------

pub open spec fn updater_elem_index_v(u: UpdaterV) -> int {
    match u {
        UpdaterV::SetAttr { element_index, .. } => element_index,
        UpdaterV::SetTimingFlag { element_index, .. } => element_index,
        UpdaterV::AddDataset { element_index, .. } => element_index,
        UpdaterV::SetInlineStyles { element_index, .. } => element_index,
        UpdaterV::ParsedStyles { element_index, .. } => element_index,
        UpdaterV::SetClasses { element_index, .. } => element_index,
        UpdaterV::SetId { element_index, .. } => element_index,
        UpdaterV::Event { element_index, .. } => element_index,
        UpdaterV::WorkletEvent { element_index, .. } => element_index,
        UpdaterV::UpdateRef { element_index } => element_index,
        UpdaterV::UpdateWorkletRef { element_index, .. } => element_index,
        UpdaterV::UpdateListItemPlatformInfo { element_index } => element_index,
        UpdaterV::UpdateGesture { element_index, .. } => element_index,
        UpdaterV::UpdateSpread { element_index } => element_index,
    }
}

proof fn lemma_filter_bounded(ps: Seq<DynamicPartV>, i: int, out: Seq<DynamicPartV>, n: int)
    requires
        parts_bounded_v(ps, n),
        parts_bounded_v(out, n),
        0 <= i,
    ensures
        parts_bounded_v(attr_parts_v(ps, i, out), n),
        parts_bounded_v(struct_parts_v(ps, i, out), n),
    decreases ps.len() - i,
{
    if i < ps.len() {
        if part_is_attr_like_v(ps[i]) {
            assert(parts_bounded_v(out.push(ps[i]), n));
            lemma_filter_bounded(ps, i + 1, out.push(ps[i]), n);
            lemma_filter_bounded(ps, i + 1, out, n);
        } else {
            assert(parts_bounded_v(out.push(ps[i]), n));
            lemma_filter_bounded(ps, i + 1, out.push(ps[i]), n);
            lemma_filter_bounded(ps, i + 1, out, n);
        }
    }
}

proof fn lemma_updaters_bounded(aps: Seq<DynamicPartV>, i: int, out: Seq<UpdaterV>, n: int)
    requires
        parts_bounded_v(aps, n),
        forall|j: int| 0 <= j < out.len() ==> updater_elem_index_v(#[trigger] out[j]) < n,
        0 <= i,
    ensures
        forall|j: int|
            0 <= j < updaters_of_v(aps, i, out).len() ==> updater_elem_index_v(
                #[trigger] updaters_of_v(aps, i, out)[j],
            ) < n,
    decreases aps.len() - i,
{
    if i < aps.len() {
        let u = updater_of_v(aps[i], i);
        assert(updater_elem_index_v(u) == part_index_v(aps[i]));
        assert(forall|j: int|
            0 <= j < out.push(u).len() ==> updater_elem_index_v(#[trigger] out.push(u)[j]) < n);
        lemma_updaters_bounded(aps, i + 1, out.push(u), n);
        assert forall|j: int|
            0 <= j < updaters_of_v(aps, i, out).len() implies updater_elem_index_v(
            #[trigger] updaters_of_v(aps, i, out)[j],
        ) < n by {
            assert(updaters_of_v(aps, i, out)[j] == updaters_of_v(aps, i + 1, out.push(u))[j]);
        }
    } else {
        assert forall|j: int|
            0 <= j < updaters_of_v(aps, i, out).len() implies updater_elem_index_v(
            #[trigger] updaters_of_v(aps, i, out)[j],
        ) < n by {
            assert(updaters_of_v(aps, i, out)[j] == out[j]);
        }
    }
}

proof fn lemma_slot_entries_bounded(sps: Seq<DynamicPartV>, i: int, out: Seq<SlotEntryV>, n: int)
    requires
        parts_bounded_v(sps, n),
        forall|j: int| 0 <= j < out.len() ==> (#[trigger] out[j]).element_index < n,
        0 <= i,
    ensures
        forall|j: int|
            0 <= j < slot_entries_of_v(sps, i, out).len() ==> (#[trigger] slot_entries_of_v(
                sps,
                i,
                out,
            )[j]).element_index < n,
    decreases sps.len() - i,
{
    if i < sps.len() {
        let e = SlotEntryV {
            kind: crate::emit::slot_kind_of_v(sps[i]),
            element_index: part_index_v(sps[i]),
        };
        assert(forall|j: int|
            0 <= j < out.push(e).len() ==> (#[trigger] out.push(e)[j]).element_index < n);
        lemma_slot_entries_bounded(sps, i + 1, out.push(e), n);
        assert forall|j: int|
            0 <= j < slot_entries_of_v(sps, i, out).len() implies (#[trigger] slot_entries_of_v(
            sps,
            i,
            out,
        )[j]).element_index < n by {
            assert(slot_entries_of_v(sps, i, out)[j] == slot_entries_of_v(
                sps,
                i + 1,
                out.push(e),
            )[j]);
        }
    } else {
        assert forall|j: int|
            0 <= j < slot_entries_of_v(sps, i, out).len() implies (#[trigger] slot_entries_of_v(
            sps,
            i,
            out,
        )[j]).element_index < n by {
            assert(slot_entries_of_v(sps, i, out)[j] == out[j]);
        }
    }
}

/// Every element index referenced by an updater or by a slot-descriptor
/// entry is below the creator function's returned element count. (The
/// count saturates at the top of `usize`, which no constructible tree
/// reaches; the law is stated below that bound.)
pub proof fn lemma_snapshot_indexes_bounded(
    el: JsxElemV,
    fh: Seq<char>,
    ch: Seq<char>,
    counter: nat,
    target: TransformTarget,
    css: Option<u32>,
    table: Seq<CssPropertyV>,
    d0: Seq<DiagnosticV>,
)
    ensures
        ({
            let o = compile_v(el, fh, ch, counter, target, css, table, d0);
            o.result matches Result::Ok(snap) ==> (snap.element_count < big_index() ==> ({
                &&& (snap.updaters matches Option::Some(us) ==> forall|j: int|
                    0 <= j < us.len() ==> updater_elem_index_v(#[trigger] us[j])
                        < snap.element_count)
                &&& (snap.slots matches SlotSpecV::Entries(es) ==> forall|j: int|
                    0 <= j < es.len() ==> (#[trigger] es[j]).element_index < snap.element_count)
                &&& (snap.slots is SingleChildren ==> 0 < snap.element_count)
            }))
        }),
{
    let o = compile_v(el, fh, ch, counter, target, css, table, d0);
    if !crate::jsx::is_tag_v(el, "component"@) {
        let m = mark_elem_v(el, 0);
        let start = ExtractStateV { diags: d0, ..empty_state_v() };
        let eo = extract_elem_v(m.0, Option::None, m.1, table, start);
        lemma_extract_elem_walk(m.0, Option::None, m.1, table, start);
        match eo.err {
            Option::Some(_) => {},
            Option::None => {
                if eo.st.element_index < big_index() {
                    assert(parts_bounded_v(start.parts, start.element_index));
                    assert(parts_bounded_v(eo.st.parts, eo.st.element_index));
                    let n = eo.st.element_index;
                    let aps = attr_parts_v(eo.st.parts, 0, Seq::empty());
                    let sps = struct_parts_v(eo.st.parts, 0, Seq::empty());
                    lemma_filter_bounded(eo.st.parts, 0, Seq::empty(), n);
                    lemma_updaters_bounded(aps, 0, Seq::empty(), n);
                    lemma_slot_entries_bounded(sps, 0, Seq::empty(), n);
                    if sps.len() == 1 && (sps[0] matches DynamicPartV::Children(_, z) && z == 0) {
                        assert(part_index_v(sps[0]) < n);
                    }
                }
            },
        }
    }
}


// ---------------------------------------------------------------------------
// The list law.
// ---------------------------------------------------------------------------

proof fn lemma_struct_single(ps: Seq<DynamicPartV>, i: int, out: Seq<SlotEntryV>)
    requires
        0 <= i < ps.len(),
        forall|j: int| i <= j < ps.len() - 1 ==> part_is_attr_like_v(#[trigger] ps[j]),
        !part_is_attr_like_v(ps.last()),
    ensures
        struct_parts_v(ps, i, Seq::empty()) == seq![ps.last()],
    decreases ps.len() - i,
{
    if i == ps.len() - 1 {
        assert(ps[i] == ps.last());
        assert(struct_parts_v(ps, i + 1, Seq::empty().push(ps.last())) == Seq::empty().push(
            ps.last(),
        ));
        assert(struct_parts_v(ps, i, Seq::empty()) =~= seq![ps.last()]);
    } else {
        lemma_struct_single(ps, i + 1, out);
    }
}

/// A `list` root always yields exactly one `ListChildren` slot entry,
/// whether or not its items are individually static.
pub proof fn lemma_list_root(
    el: JsxElemV,
    fh: Seq<char>,
    ch: Seq<char>,
    counter: nat,
    target: TransformTarget,
    css: Option<u32>,
    table: Seq<CssPropertyV>,
    d0: Seq<DiagnosticV>,
)
    requires
        crate::jsx::is_tag_v(el, "list"@),
    ensures
        ({
            let o = compile_v(el, fh, ch, counter, target, css, table, d0);
            o.result matches Result::Ok(snap) ==> snap.slots matches SlotSpecV::Entries(es)
                && es.len() == 1 && es[0].kind == crate::snapshot::SlotKind::ListChildrenHere
        }),
{
    reveal_strlit("list");
    reveal_strlit("component");
    reveal_strlit("page");
    reveal_strlit("internal-slot");
    reveal_strlit("wrapper");
    assert("list"@.len() != "component"@.len());
    assert(!crate::jsx::is_tag_v(el, "component"@));
    assert("list"@[0] != "page"@[0]);
    assert(!crate::jsx::is_custom_v(el));
    let m = mark_elem_v(el, 0);
    let el1 = (if el.children.len() > 0 {
        JsxElemV {
            name: el.name,
            attrs: el.attrs,
            children: seq![
                crate::ast::JsxChildV::ExprChild(crate::jsx::children_to_expr_v(el.children)),
            ],
        }
    } else {
        el
    });
    assert(m.0 == crate::jsx::internal_slot_wrap_v(el1));
    assert(m.1 == 1);
    let start = ExtractStateV { diags: d0, ..empty_state_v() };
    let eo = extract_elem_v(m.0, Option::None, 1, table, start);
    assert(crate::jsx::is_internal_slot_v(m.0));
    assert(crate::jsx::unwrap_internal_slot_v(m.0) == el1);
    assert(eo == extract_core_v(el1, Option::None, 1, table, start));
    assert("list"@[0] != "internal-slot"@[0]);
    assert(!crate::jsx::is_custom_v(el1));
    // the element's own processing, stage by stage
    let start0 = (if crate::jsx::tag_has_namespace_v(el1.name) {
        crate::extract::st_error(start, "JSX Namespace is disabled"@)
    } else {
        start
    });
    let s1 = (if !start0.page_declared {
        ExtractStateV {
            page_declared: true,
            ..crate::extract::st_stmt(start0, StmtV::DeclarePageId)
        }
    } else {
        start0
    });
    let idx = s1.element_index;
    let kind = (match el1.name {
        crate::ast::ElemNameV::Tag(t) => crate::extract::kind_of_tag_v(t),
        crate::ast::ElemNameV::Component(_) => crate::snapshot::CreateKindV::View,
    });
    let s2 = ExtractStateV {
        uses_instance: s1.uses_instance || (kind is List),
        ..crate::extract::st_bump(crate::extract::st_stmt(s1, StmtV::Create(idx, kind)))
    };
    let attrs1 = crate::extract::apply_flatten_v(el1.attrs);
    let has_spread = crate::extract::any_spread_v(attrs1);
    assert("list"@.len() != "list-item"@.len()) by {
        reveal_strlit("list");
        reveal_strlit("list-item");
    }
    assert(!crate::jsx::is_list_item_v(el1));
    let s3 = s2;
    let picked = pick_key_v(attrs1, true, s3);
    lemma_pick_key_delta(attrs1, 0, Seq::empty(), true, s3);
    let s4 = picked.1;
    let after_attrs = (if has_spread {
        crate::extract::ok_v(
            crate::extract::st_part(
                s4,
                DynamicPartV::Spread(crate::extract::spread_obj_v(picked.0), idx),
            ),
        )
    } else {
        attrs_fold_v(picked.0, 0, idx, table, s4)
    });
    if !has_spread {
        lemma_attrs_fold_delta(picked.0, 0, idx, table, s4);
    }
    match after_attrs.err {
        Option::Some(_) => {
            assert(eo.err is Some);
        },
        Option::None => {
            let s5 = after_attrs.st;
            let s6 = s5;
            assert(crate::jsx::is_list_v(el1));
            let part = DynamicPartV::ListChildren(
                crate::jsx::children_to_expr_v(el1.children),
                idx,
            );
            assert(eo.st == crate::extract::st_part(s6, part));
            assert(eo.err is None);
            // every part before the last is attribute-like
            assert forall|j: int|
                0 <= j < eo.st.parts.len() - 1 implies part_is_attr_like_v(
                #[trigger] eo.st.parts[j],
            ) by {
                assert(eo.st.parts[j] == s5.parts[j]);
            }
            assert(eo.st.parts.last() == part);
            assert(!part_is_attr_like_v(part));
            assert(eo.st.parts.len() > 0);
            lemma_struct_single(eo.st.parts, 0, Seq::empty());
            let sps = struct_parts_v(eo.st.parts, 0, Seq::empty());
            assert(sps =~= seq![part]);
            let so = slots_of_v(sps);
            assert(sps[0] == part);
            assert(slot_entries_of_v(sps, 1, Seq::empty().push(
                SlotEntryV {
                    kind: crate::snapshot::SlotKind::ListChildrenHere,
                    element_index: idx,
                },
            )) == Seq::empty().push(
                SlotEntryV {
                    kind: crate::snapshot::SlotKind::ListChildrenHere,
                    element_index: idx,
                },
            ));
            assert(slot_entries_of_v(sps, 0, Seq::empty()) =~= seq![
                SlotEntryV {
                    kind: crate::snapshot::SlotKind::ListChildrenHere,
                    element_index: idx,
                },
            ]);
        },
    }
}


// ---------------------------------------------------------------------------
// The static-tree law.
// ---------------------------------------------------------------------------

/// A statically classified attribute: plainly named, carrying no
/// expression, and of a kind that becomes a setter statement. On a
/// `list-item` the hoisted platform-info names are excluded.
pub open spec fn static_attr_v(a: crate::ast::AttrOrSpreadV, li: bool) -> bool {
    match a {
        crate::ast::AttrOrSpreadV::Attr(at) => match at.key {
            crate::ast::AttrKeyV::Ident(n) => {
                &&& (match crate::attr_name::classify_v(n) {
                    AttrNameV::Attr(_) => true,
                    AttrNameV::Dataset(_) => true,
                    AttrNameV::Class => true,
                    AttrNameV::ID => true,
                    AttrNameV::Style => true,
                    _ => false,
                })
                &&& (match at.val {
                    Option::None => true,
                    Option::Some(crate::ast::AttrValV::Lit(_)) => true,
                    _ => false,
                })
                &&& (li ==> !crate::extract::is_li_info_name_v(n))
            },
            crate::ast::AttrKeyV::Ns(_, _) => false,
        },
        crate::ast::AttrOrSpreadV::Spread(_) => false,
    }
}

pub open spec fn static_attrs_v(attrs: Seq<crate::ast::AttrOrSpreadV>, li: bool) -> bool {
    forall|j: int| 0 <= j < attrs.len() ==> static_attr_v(#[trigger] attrs[j], li)
}

/// A tree with zero dynamic expressions: concrete non-list elements with
/// static attributes, whose children are text or again such elements, with
/// at least one anchor among them.
pub open spec fn static_elem_v(el: JsxElemV) -> bool
    decreases el,
{
    &&& (el.name matches crate::ast::ElemNameV::Tag(_))
    &&& !crate::jsx::is_custom_v(el)
    &&& !crate::jsx::is_list_v(el)
    &&& !crate::jsx::is_internal_slot_v(el)
    &&& !crate::jsx::is_tag_v(el, "component"@)
    &&& static_attrs_v(el.attrs, crate::jsx::is_list_item_v(el))
    &&& static_children_v(el.children)
    &&& !crate::jsx::children_full_dynamic_v(el)
}

pub open spec fn static_children_v(cs: Seq<JsxChildV>) -> bool
    decreases cs,
{
    if cs.len() == 0 {
        true
    } else {
        (match cs[0] {
            JsxChildV::Text(_) => true,
            JsxChildV::Elem(e) => static_elem_v(e),
            _ => false,
        }) && static_children_v(cs.drop_first())
    }
}

proof fn lemma_static_children_index(cs: Seq<JsxChildV>, j: int)
    requires
        static_children_v(cs),
        0 <= j < cs.len(),
    ensures
        cs[j] matches JsxChildV::Text(_) || (cs[j] matches JsxChildV::Elem(e)
            && static_elem_v(e)),
    decreases j,
{
    if j == 0 {
    } else {
        lemma_static_children_index(cs.drop_first(), j - 1);
        assert(cs.drop_first()[j - 1] == cs[j]);
    }
}

/// The marker leaves a static tree untouched, and its slot count alone.
proof fn lemma_mark_static(el: JsxElemV, cnt: int)
    requires
        static_elem_v(el),
    ensures
        mark_elem_v(el, cnt) == (el, cnt),
    decreases el, 0int,
{
    lemma_mark_children_static(el.children, 0, Seq::empty(), cnt);
    assert(Seq::<JsxChildV>::empty() + el.children.skip(0) =~= el.children);
    assert((JsxElemV { name: el.name, attrs: el.attrs, children: el.children }) == el);
    assert(mark_elem_v(el, cnt).0 =~~= el);
}

/// On static children the merging walk is the identity: every child is an
/// anchor, no run ever opens.
proof fn lemma_mark_children_static(
    cs: Seq<JsxChildV>,
    i: int,
    out: Seq<JsxChildV>,
    cnt: int,
)
    requires
        static_children_v(cs),
        0 <= i <= cs.len(),
    ensures
        crate::marker::mark_children_acc(cs, i, out, Seq::empty(), cnt) == (
            out + cs.skip(i),
            cnt,
        ),
    decreases cs, 1int, cs.len() - i,
{
    if i >= cs.len() {
        assert(out + cs.skip(i) =~= out);
    } else {
        lemma_static_children_index(cs, i);
        let c = cs[i];
        match c {
            JsxChildV::Text(_) => {
                assert(crate::marker::child_is_anchor_v(c, true));
                assert(crate::marker::mark_anchor_v(c, cnt) == (c, cnt));
            },
            JsxChildV::Elem(e) => {
                assert(crate::marker::child_is_anchor_v(c, true));
                lemma_mark_static(e, cnt);
                assert(crate::marker::mark_anchor_v(c, cnt) == (c, cnt));
            },
            _ => {
                assert(false);
            },
        }
        lemma_mark_children_static(cs, i + 1, out.push(c), cnt);
        assert(out.push(c) + cs.skip(i + 1) =~= out + cs.skip(i));
    }
}


proof fn lemma_flatten_attr_static(li: bool)
    ensures
        static_attr_v(crate::extract::flatten_false_attr_v(), li),
{
    reveal_strlit("flatten");
    reveal_strlit("data-");
    reveal_strlit("class");
    reveal_strlit("className");
    reveal_strlit("style");
    reveal_strlit("id");
    reveal_strlit("ref");
    reveal_strlit("__lynx_timing_flag");
    reveal_strlit("global-bind");
    reveal_strlit("bind");
    reveal_strlit("catch");
    reveal_strlit("capture-bind");
    reveal_strlit("capture-catch");
    reveal_strlit("reuse-identifier");
    reveal_strlit("full-span");
    reveal_strlit("item-key");
    reveal_strlit("sticky-top");
    reveal_strlit("sticky-bottom");
    reveal_strlit("estimated-height");
    reveal_strlit("estimated-height-px");
    reveal_strlit("estimated-main-axis-size-px");
    let n = "flatten"@;
    assert(!crate::strutil::starts_with_v(n, "data-"@)) by {
        assert(n.len() >= "data-"@.len() ==> n.subrange(0, 5)[0] == n[0]);
    }
    assert(crate::attr_name::event_of_v(n) is None) by {
        assert(n.len() >= "bind"@.len() ==> n.subrange(0, 4)[0] == n[0]);
        assert(n.len() >= "catch"@.len() ==> n.subrange(0, 5)[0] == n[0]);
        assert(!crate::strutil::starts_with_v(n, "global-bind"@));
        assert(!crate::strutil::starts_with_v(n, "bind"@));
        assert(!crate::strutil::starts_with_v(n, "catch"@));
        assert(!crate::strutil::starts_with_v(n, "capture-bind"@));
        assert(!crate::strutil::starts_with_v(n, "capture-catch"@));
    }
    assert(crate::attr_name::classify_v(n) == AttrNameV::Attr(n));
    assert(!crate::extract::is_li_info_name_v(n));
}

proof fn lemma_static_attrs_index(attrs: Seq<crate::ast::AttrOrSpreadV>, li: bool, j: int)
    requires
        static_attrs_v(attrs, li),
        0 <= j < attrs.len(),
    ensures
        static_attr_v(attrs[j], li),
{
}

proof fn lemma_apply_flatten_static(attrs: Seq<crate::ast::AttrOrSpreadV>, li: bool)
    requires
        static_attrs_v(attrs, li),
    ensures
        static_attrs_v(crate::extract::apply_flatten_v(attrs), li),
{
    if crate::extract::any_no_flatten_v(attrs) && !crate::extract::any_flatten_attr_v(attrs) {
        let pushed = attrs.push(crate::extract::flatten_false_attr_v());
        lemma_flatten_attr_static(li);
        assert forall|j: int| 0 <= j < pushed.len() implies static_attr_v(
            #[trigger] pushed[j],
            li,
        ) by {
            if j < attrs.len() {
                assert(pushed[j] == attrs[j]);
            }
        }
    }
}

proof fn lemma_static_no_spread(attrs: Seq<crate::ast::AttrOrSpreadV>, i: int, li: bool)
    requires
        static_attrs_v(attrs, li),
        0 <= i <= attrs.len(),
    ensures
        !crate::extract::any_spread_v(attrs.skip(i)),
    decreases attrs.len() - i,
{
    if i < attrs.len() {
        assert(attrs.skip(i)[0] == attrs[i]);
        lemma_static_no_spread(attrs, i + 1, li);
        assert(attrs.skip(i).drop_first() =~= attrs.skip(i + 1));
    } else {
        assert(attrs.skip(i).len() == 0);
    }
}

proof fn lemma_li_split_static(
    attrs: Seq<crate::ast::AttrOrSpreadV>,
    i: int,
    kept: Seq<crate::ast::AttrOrSpreadV>,
    hoisted: Seq<crate::ast::JsxAttrV>,
)
    requires
        static_attrs_v(attrs, true),
        0 <= i <= attrs.len(),
    ensures
        crate::extract::li_split_acc(attrs, i, kept, hoisted) == (kept + attrs.skip(i), hoisted),
    decreases attrs.len() - i,
{
    if i < attrs.len() {
        lemma_li_split_static(attrs, i + 1, kept.push(attrs[i]), hoisted);
        assert(kept.push(attrs[i]) + attrs.skip(i + 1) =~= kept + attrs.skip(i));
    } else {
        assert(kept + attrs.skip(i) =~= kept);
    }
}

proof fn lemma_pick_key_static(
    attrs: Seq<crate::ast::AttrOrSpreadV>,
    i: int,
    out: Seq<crate::ast::AttrOrSpreadV>,
    is_root: bool,
    st0: ExtractStateV,
    li: bool,
)
    requires
        static_attrs_v(attrs, li),
        static_attrs_v(out, li),
        0 <= i,
    ensures
        static_attrs_v(pick_key_acc(attrs, i, out, is_root, st0).0, li),
    decreases attrs.len() - i,
{
    if i < attrs.len() {
        let is_key = crate::extract::attr_ident_name_v(attrs[i]) == Option::Some("key"@);
        if is_key {
            let s1 = if is_root {
                ExtractStateV {
                    key: match attrs[i] {
                        crate::ast::AttrOrSpreadV::Attr(at) => at.val,
                        crate::ast::AttrOrSpreadV::Spread(_) => st0.key,
                    },
                    ..st0
                }
            } else {
                crate::extract::st_warn(st0, "key is not on root element of snapshot"@)
            };
            lemma_pick_key_static(attrs, i + 1, out, is_root, s1, li);
        } else {
            assert forall|j: int| 0 <= j < out.push(attrs[i]).len() implies static_attr_v(
                #[trigger] out.push(attrs[i])[j],
                li,
            ) by {
                if j < out.len() {
                    assert(out.push(attrs[i])[j] == out[j]);
                }
            }
            lemma_pick_key_static(attrs, i + 1, out.push(attrs[i]), is_root, st0, li);
        }
    }
}

proof fn lemma_process_attr_static(
    a: crate::ast::AttrOrSpreadV,
    idx: int,
    table: Seq<CssPropertyV>,
    s: ExtractStateV,
)
    requires
        static_attr_v(a, false),
    ensures
        process_attr_v(a, idx, table, s).err is None,
        process_attr_v(a, idx, table, s).st.parts == s.parts,
        process_attr_v(a, idx, table, s).st.element_index == s.element_index,
{
}

proof fn lemma_attrs_fold_static(
    attrs: Seq<crate::ast::AttrOrSpreadV>,
    i: int,
    idx: int,
    table: Seq<CssPropertyV>,
    s: ExtractStateV,
)
    requires
        static_attrs_v(attrs, false),
        0 <= i,
    ensures
        attrs_fold_v(attrs, i, idx, table, s).err is None,
        attrs_fold_v(attrs, i, idx, table, s).st.parts == s.parts,
        attrs_fold_v(attrs, i, idx, table, s).st.element_index == s.element_index,
    decreases attrs.len() - i,
{
    if i < attrs.len() {
        lemma_process_attr_static(attrs[i], idx, table, s);
        let r = process_attr_v(attrs[i], idx, table, s);
        lemma_attrs_fold_static(attrs, i + 1, idx, table, r.st);
    }
}

proof fn lemma_static_attrs_weaken(attrs: Seq<crate::ast::AttrOrSpreadV>, li: bool)
    requires
        static_attrs_v(attrs, li),
    ensures
        static_attrs_v(attrs, false),
{
    assert forall|j: int| 0 <= j < attrs.len() implies static_attr_v(
        #[trigger] attrs[j],
        false,
    ) by {
        assert(static_attr_v(attrs[j], li));
    }
}

/// On a static tree the extractor emits construction statements only: no
/// dynamic part and no hard error.
proof fn lemma_extract_static_elem(
    el: JsxElemV,
    parent: Option<int>,
    cnt: int,
    table: Seq<CssPropertyV>,
    s: ExtractStateV,
)
    requires
        static_elem_v(el),
    ensures
        extract_elem_v(el, parent, cnt, table, s).err is None,
        extract_elem_v(el, parent, cnt, table, s).st.parts == s.parts,
    decreases el, 3int,
{
    let li = crate::jsx::is_list_item_v(el);
    let s0 = (if crate::jsx::tag_has_namespace_v(el.name) {
        crate::extract::st_error(s, "JSX Namespace is disabled"@)
    } else {
        s
    });
    let s1 = (if !s0.page_declared {
        ExtractStateV { page_declared: true, ..crate::extract::st_stmt(s0, StmtV::DeclarePageId) }
    } else {
        s0
    });
    let idx = s1.element_index;
    let kind = (match el.name {
        crate::ast::ElemNameV::Tag(t) => crate::extract::kind_of_tag_v(t),
        crate::ast::ElemNameV::Component(_) => crate::snapshot::CreateKindV::View,
    });
    let s2 = ExtractStateV {
        uses_instance: s1.uses_instance || (kind is List),
        ..crate::extract::st_bump(crate::extract::st_stmt(s1, StmtV::Create(idx, kind)))
    };
    let attrs1 = crate::extract::apply_flatten_v(el.attrs);
    lemma_apply_flatten_static(el.attrs, li);
    lemma_static_no_spread(attrs1, 0, li);
    assert(attrs1.skip(0) =~= attrs1);
    let has_spread = crate::extract::any_spread_v(attrs1);
    assert(!has_spread);
    let split = (if li {
        crate::extract::li_split_v(attrs1)
    } else {
        (attrs1, Seq::<crate::ast::JsxAttrV>::empty())
    });
    if li {
        lemma_li_split_static(attrs1, 0, Seq::empty(), Seq::empty());
        assert(Seq::<crate::ast::AttrOrSpreadV>::empty() + attrs1.skip(0) =~= attrs1);
    }
    assert(split.0 == attrs1);
    assert(split.1.len() == 0);
    let s3 = s2;
    let picked = pick_key_v(split.0, parent is None, s3);
    lemma_pick_key_delta(split.0, 0, Seq::empty(), parent is None, s3);
    lemma_pick_key_static(split.0, 0, Seq::empty(), parent is None, s3, li);
    let s4 = picked.1;
    lemma_static_attrs_weaken(picked.0, li);
    lemma_attrs_fold_static(picked.0, 0, idx, table, s4);
    let after_attrs = attrs_fold_v(picked.0, 0, idx, table, s4);
    let s5 = after_attrs.st;
    let s6 = (match parent {
        Option::Some(p) => crate::extract::st_stmt(s5, StmtV::Append(p, idx)),
        Option::None => s5,
    });
    assert(!(crate::jsx::is_list_v(el) || crate::jsx::children_full_dynamic_v(el)));
    lemma_extract_static_children(el.children, 0, Option::Some(idx), cnt, table, s6);
}

proof fn lemma_extract_static_children(
    cs: Seq<JsxChildV>,
    i: int,
    parent: Option<int>,
    cnt: int,
    table: Seq<CssPropertyV>,
    s: ExtractStateV,
)
    requires
        static_children_v(cs),
        0 <= i,
    ensures
        children_fold_v(cs, i, parent, cnt, table, s).err is None,
        children_fold_v(cs, i, parent, cnt, table, s).st.parts == s.parts,
    decreases cs, 1int, cs.len() - i,
{
    if i < cs.len() {
        lemma_static_children_index(cs, i);
        let r = extract_child_v(cs[i], parent, cnt, table, s);
        match cs[i] {
            JsxChildV::Text(_) => {},
            JsxChildV::Elem(e) => {
                assert(!crate::jsx::is_internal_slot_v(e));
                lemma_extract_static_elem(e, parent, cnt, table, s);
            },
            _ => {
                assert(false);
            },
        }
        lemma_extract_static_children(cs, i + 1, parent, cnt, table, r.st);
    }
}

/// A JSX tree with zero dynamic expressions produces zero dynamic parts
/// and a self-closing replacement node: no updaters, no values, no slots,
/// no replacement children.
pub proof fn lemma_static_tree(
    el: JsxElemV,
    fh: Seq<char>,
    ch: Seq<char>,
    counter: nat,
    target: TransformTarget,
    css: Option<u32>,
    table: Seq<CssPropertyV>,
    d0: Seq<DiagnosticV>,
)
    requires
        static_elem_v(el),
    ensures
        ({
            let o = compile_v(el, fh, ch, counter, target, css, table, d0);
            o.result matches Result::Ok(snap) ==> {
                &&& snap.self_closing
                &&& snap.updaters is None
                &&& snap.values is None
                &&& snap.slots is NoSlots
                &&& snap.children == Seq::<JsxChildV>::empty()
            }
        }),
        compile_v(el, fh, ch, counter, target, css, table, d0).result is Ok,
{
    let m = mark_elem_v(el, 0);
    lemma_mark_static(el, 0);
    assert(m == (el, 0int));
    let start = ExtractStateV { diags: d0, ..empty_state_v() };
    assert(!crate::jsx::is_internal_slot_v(el));
    lemma_extract_static_elem(el, Option::<int>::None, 0, table, start);
    let eo = extract_elem_v(el, Option::<int>::None, 0, table, start);
    assert(eo.st.parts == start.parts);
    assert(eo.st.parts.len() == 0);
    assert(attr_parts_v(eo.st.parts, 0, Seq::empty()) =~= Seq::<DynamicPartV>::empty());
    assert(struct_parts_v(eo.st.parts, 0, Seq::empty()) =~= Seq::<DynamicPartV>::empty());
}


// ---------------------------------------------------------------------------
// The style-split law.
// ---------------------------------------------------------------------------

/// The static calls of a decomposed style list: one per literal-valued
/// property, in source order.
pub open spec fn lit_style_stmts_v(styles: Seq<StylePropV>, i: int, idx: int) -> Seq<StmtV>
    decreases styles.len() - i,
{
    if i < 0 || i >= styles.len() {
        Seq::empty()
    } else {
        let rest = lit_style_stmts_v(styles, i + 1, idx);
        if crate::style::is_literal_v(styles[i].value) {
            seq![StmtV::AddInlineStyle(idx, styles[i].id, styles[i].value)] + rest
        } else {
            rest
        }
    }
}

/// The ids of the non-literal properties, in source order.
pub open spec fn dyn_style_ids_v(styles: Seq<StylePropV>, i: int) -> Seq<u32>
    decreases styles.len() - i,
{
    if i < 0 || i >= styles.len() {
        Seq::empty()
    } else {
        let rest = dyn_style_ids_v(styles, i + 1);
        if crate::style::is_literal_v(styles[i].value) {
            rest
        } else {
            seq![styles[i].id] + rest
        }
    }
}

/// The values of the non-literal properties, in source order.
pub open spec fn dyn_style_vals_v(styles: Seq<StylePropV>, i: int) -> Seq<crate::ast::JsExprV>
    decreases styles.len() - i,
{
    if i < 0 || i >= styles.len() {
        Seq::empty()
    } else {
        let rest = dyn_style_vals_v(styles, i + 1);
        if crate::style::is_literal_v(styles[i].value) {
            rest
        } else {
            seq![styles[i].value] + rest
        }
    }
}

proof fn lemma_style_fold_shape(
    styles: Seq<StylePropV>,
    i: int,
    idx: int,
    bids: Seq<u32>,
    bvals: Seq<crate::ast::JsExprV>,
    s: ExtractStateV,
)
    requires
        0 <= i,
    ensures
        ({
            let r = style_fold_v(styles, i, idx, bids, bvals, s);
            &&& r.stmts == s.stmts + lit_style_stmts_v(styles, i, idx)
            &&& (bids.len() + dyn_style_ids_v(styles, i).len() > 0 ==> r.parts == s.parts.push(
                DynamicPartV::Attr(
                    crate::ast::JsExprV::Arr(bvals + dyn_style_vals_v(styles, i)),
                    idx,
                    AttrNameV::ParsedStyle(bids + dyn_style_ids_v(styles, i)),
                ),
            ))
            &&& (bids.len() + dyn_style_ids_v(styles, i).len() == 0 ==> r.parts == s.parts)
            &&& r.element_index == s.element_index
            &&& r.key == s.key
            &&& r.diags == s.diags
            &&& r.page_declared == s.page_declared
            &&& r.uses_instance == s.uses_instance
        }),
    decreases styles.len() - i,
{
    if i >= styles.len() {
        assert(s.stmts + lit_style_stmts_v(styles, i, idx) =~= s.stmts);
        if bids.len() > 0 {
            assert(bvals + dyn_style_vals_v(styles, i) =~= bvals);
            assert(bids + dyn_style_ids_v(styles, i) =~= bids);
        }
    } else {
        let sp = styles[i];
        if crate::style::is_literal_v(sp.value) {
            let s1 = crate::extract::st_stmt(s, StmtV::AddInlineStyle(idx, sp.id, sp.value));
            lemma_style_fold_shape(styles, i + 1, idx, bids, bvals, s1);
            assert(s1.stmts + lit_style_stmts_v(styles, i + 1, idx) =~= s.stmts
                + lit_style_stmts_v(styles, i, idx));
        } else {
            lemma_style_fold_shape(styles, i + 1, idx, bids.push(sp.id), bvals.push(sp.value), s);
            assert(bids.push(sp.id) + dyn_style_ids_v(styles, i + 1) =~= bids + dyn_style_ids_v(
                styles,
                i,
            ));
            assert(bvals.push(sp.value) + dyn_style_vals_v(styles, i + 1) =~= bvals
                + dyn_style_vals_v(styles, i));
        }
    }
}

/// A successful decomposition never warns.
proof fn lemma_style_ids_ok_no_warn(
    ps: Seq<crate::ast::ObjPropV>,
    i: int,
    acc: Seq<u32>,
    table: Seq<CssPropertyV>,
)
    requires
        0 <= i,
        crate::style::style_ids_v(ps, i, acc, table).0 is Some,
    ensures
        !crate::style::style_ids_v(ps, i, acc, table).1,
    decreases ps.len() - i,
{
    if i < ps.len() {
        match ps[i] {
            crate::ast::ObjPropV::KeyValue(k, _) => match k {
                crate::ast::PropKeyV::Num(n) => lemma_style_ids_ok_no_warn(
                    ps,
                    i + 1,
                    acc.push(n),
                    table,
                ),
                crate::ast::PropKeyV::Str(n) => {
                    match crate::style::css_lookup(table, crate::style::kebab_of(n)) {
                        Option::Some(id) => lemma_style_ids_ok_no_warn(ps, i + 1, acc.push(id), table),
                        Option::None => {},
                    }
                },
                crate::ast::PropKeyV::Ident(n) => {
                    match crate::style::css_lookup(table, crate::style::kebab_of(n)) {
                        Option::Some(id) => lemma_style_ids_ok_no_warn(ps, i + 1, acc.push(id), table),
                        Option::None => {},
                    }
                },
                crate::ast::PropKeyV::Computed(_) => {},
            },
            crate::ast::ObjPropV::Shorthand(n) => {
                match crate::style::css_lookup(table, crate::style::kebab_of(n)) {
                    Option::Some(id) => lemma_style_ids_ok_no_warn(ps, i + 1, acc.push(id), table),
                    Option::None => {},
                }
            },
            crate::ast::ObjPropV::Spread(_) => {},
            crate::ast::ObjPropV::Method(_) => {},
        }
    }
}

proof fn lemma_props_literal_index(ps: Seq<crate::ast::ObjPropV>, j: int)
    requires
        crate::style::props_literal_v(ps),
        0 <= j < ps.len(),
    ensures
        ps[j] matches crate::ast::ObjPropV::KeyValue(k, v) && !(k is Computed)
            && crate::style::is_literal_v(v),
    decreases j,
{
    if j > 0 {
        lemma_props_literal_index(ps.drop_first(), j - 1);
        assert(ps.drop_first()[j - 1] == ps[j]);
    }
}

/// The style-object split, in general: when a non-literal style object
/// decomposes, every literal-valued property becomes its own static
/// inline-style call, and exactly the non-literal properties merge into
/// one parsed-style part — one dynamic part, hence one expression index,
/// however the literal and dynamic properties are ordered.
pub proof fn lemma_style_object_split(
    o: crate::ast::ObjLitV,
    idx: int,
    table: Seq<CssPropertyV>,
    s: ExtractStateV,
)
    requires
        !crate::style::is_literal_v(crate::ast::JsExprV::Object(o)),
        crate::style::style_ids_v(o.props, 0, Seq::empty(), table).0 is Some,
    ensures
        ({
            let ids = crate::style::style_ids_v(o.props, 0, Seq::empty(), table).0.unwrap();
            let styles = crate::style::style_zip_v(o.props, ids, 0);
            let r = style_attr_v(crate::ast::JsExprV::Object(o), idx, table, s);
            &&& r.stmts == s.stmts + lit_style_stmts_v(styles, 0, idx)
            &&& (dyn_style_ids_v(styles, 0).len() > 0 ==> r.parts == s.parts.push(
                DynamicPartV::Attr(
                    crate::ast::JsExprV::Arr(dyn_style_vals_v(styles, 0)),
                    idx,
                    AttrNameV::ParsedStyle(dyn_style_ids_v(styles, 0)),
                ),
            ))
            &&& (dyn_style_ids_v(styles, 0).len() == 0 ==> r.parts == s.parts)
            &&& r.diags == s.diags
        }),
{
    let ids = crate::style::style_ids_v(o.props, 0, Seq::empty(), table).0.unwrap();
    let styles = crate::style::style_zip_v(o.props, ids, 0);
    lemma_style_ids_ok_no_warn(o.props, 0, Seq::empty(), table);
    crate::style::lemma_style_ids_shape(o.props, 0, Seq::empty(), table);
    crate::style::lemma_style_zip_len(o.props, ids, 0);
    // a literal object would contradict the premise, so some property
    // exists and the zip is nonempty
    if styles.len() == 0 {
        assert(o.props.len() == 0);
        assert(crate::style::props_literal_v(o.props));
        assert(false);
    }
    lemma_style_fold_shape(styles, 0, idx, Seq::empty(), Seq::empty(), s);
    if dyn_style_ids_v(styles, 0).len() > 0 {
        assert(Seq::<crate::ast::JsExprV>::empty() + dyn_style_vals_v(styles, 0)
            =~= dyn_style_vals_v(styles, 0));
        assert(Seq::<u32>::empty() + dyn_style_ids_v(styles, 0) =~= dyn_style_ids_v(styles, 0));
    }
}


// ---------------------------------------------------------------------------
// The key laws.
// ---------------------------------------------------------------------------

pub open spec fn is_key_attr_v(a: crate::ast::AttrOrSpreadV) -> bool {
    crate::extract::attr_ident_name_v(a) == Option::Some("key"@)
}

/// The value of the last `key` attribute from position `i` on, or the
/// fallback when none follows.
pub open spec fn last_key_val_v(
    attrs: Seq<crate::ast::AttrOrSpreadV>,
    i: int,
    dflt: Option<crate::ast::AttrValV>,
) -> Option<crate::ast::AttrValV>
    decreases attrs.len() - i,
{
    if i < 0 || i >= attrs.len() {
        dflt
    } else {
        let dflt1 = if is_key_attr_v(attrs[i]) {
            match attrs[i] {
                crate::ast::AttrOrSpreadV::Attr(at) => at.val,
                crate::ast::AttrOrSpreadV::Spread(_) => dflt,
            }
        } else {
            dflt
        };
        last_key_val_v(attrs, i + 1, dflt1)
    }
}

pub open spec fn key_count_v(attrs: Seq<crate::ast::AttrOrSpreadV>, i: int) -> int
    decreases attrs.len() - i,
{
    if i < 0 || i >= attrs.len() {
        0
    } else {
        (if is_key_attr_v(attrs[i]) {
            1int
        } else {
            0int
        }) + key_count_v(attrs, i + 1)
    }
}

pub open spec fn key_warning_v() -> DiagnosticV {
    DiagnosticV {
        level: crate::diag::DiagLevel::Warning,
        message: "key is not on root element of snapshot"@,
    }
}

proof fn lemma_pick_key_acc_shape(
    attrs: Seq<crate::ast::AttrOrSpreadV>,
    i: int,
    out: Seq<crate::ast::AttrOrSpreadV>,
    is_root: bool,
    s: ExtractStateV,
)
    requires
        0 <= i,
        forall|j: int| 0 <= j < out.len() ==> !is_key_attr_v(#[trigger] out[j]),
    ensures
        ({
            let r = pick_key_acc(attrs, i, out, is_root, s);
            &&& forall|j: int| 0 <= j < r.0.len() ==> !is_key_attr_v(#[trigger] r.0[j])
            &&& (is_root ==> r.1 == (ExtractStateV {
                key: last_key_val_v(attrs, i, s.key),
                ..s
            }))
            &&& (!is_root ==> r.1.key == s.key && r.1.diags.len() == s.diags.len() + key_count_v(
                attrs,
                i,
            ) && (forall|j: int| 0 <= j < s.diags.len() ==> r.1.diags[j] == #[trigger] s.diags[j])
                && (forall|j: int|
                s.diags.len() <= j < r.1.diags.len() ==> #[trigger] r.1.diags[j]
                    == key_warning_v()) && r.1.parts == s.parts && r.1.stmts == s.stmts
                && r.1.element_index == s.element_index && r.1.page_declared == s.page_declared
                && r.1.uses_instance == s.uses_instance)
        }),
    decreases attrs.len() - i,
{
    if i < attrs.len() {
        if is_key_attr_v(attrs[i]) {
            let s1 = if is_root {
                ExtractStateV {
                    key: match attrs[i] {
                        crate::ast::AttrOrSpreadV::Attr(at) => at.val,
                        crate::ast::AttrOrSpreadV::Spread(_) => s.key,
                    },
                    ..s
                }
            } else {
                crate::extract::st_warn(s, "key is not on root element of snapshot"@)
            };
            lemma_pick_key_acc_shape(attrs, i + 1, out, is_root, s1);
            if !is_root {
                let r = pick_key_acc(attrs, i, out, is_root, s);
                assert forall|j: int| 0 <= j < s.diags.len() implies r.1.diags[j]
                    == #[trigger] s.diags[j] by {
                    assert(r.1.diags[j] == s1.diags[j]);
                    assert(s1.diags[j] == s.diags[j]);
                }
                assert forall|j: int|
                    s.diags.len() <= j < r.1.diags.len() implies #[trigger] r.1.diags[j]
                    == key_warning_v() by {
                    if j < s1.diags.len() {
                        assert(r.1.diags[j] == s1.diags[j]);
                        assert(s1.diags[j] == key_warning_v());
                    }
                }
            }
        } else {
            assert forall|j: int| 0 <= j < out.push(attrs[i]).len() implies !is_key_attr_v(
                #[trigger] out.push(attrs[i])[j],
            ) by {
                if j < out.len() {
                    assert(out.push(attrs[i])[j] == out[j]);
                }
            }
            lemma_pick_key_acc_shape(attrs, i + 1, out.push(attrs[i]), is_root, s);
        }
    }
}

/// The root-key law: the last `key` attribute of the snapshot root is
/// lifted into the state, and no `key` attribute survives into the
/// attribute fold or the spread object; nothing else changes.
pub proof fn lemma_root_key_lifted(attrs: Seq<crate::ast::AttrOrSpreadV>, s: ExtractStateV)
    ensures
        ({
            let r = pick_key_v(attrs, true, s);
            &&& forall|j: int| 0 <= j < r.0.len() ==> !is_key_attr_v(#[trigger] r.0[j])
            &&& r.1 == (ExtractStateV { key: last_key_val_v(attrs, 0, s.key), ..s })
        }),
{
    lemma_pick_key_acc_shape(attrs, 0, Seq::empty(), true, s);
}

/// The descendant-key law: on a non-root element every `key` attribute is
/// dropped with exactly one warning each; the lifted key, the statements
/// and the parts are untouched, so compilation continues.
pub proof fn lemma_descendant_key_warns(attrs: Seq<crate::ast::AttrOrSpreadV>, s: ExtractStateV)
    ensures
        ({
            let r = pick_key_v(attrs, false, s);
            &&& forall|j: int| 0 <= j < r.0.len() ==> !is_key_attr_v(#[trigger] r.0[j])
            &&& r.1.key == s.key
            &&& r.1.diags.len() == s.diags.len() + key_count_v(attrs, 0)
            &&& forall|j: int|
                s.diags.len() <= j < r.1.diags.len() ==> #[trigger] r.1.diags[j] == key_warning_v()
            &&& r.1.parts == s.parts
            &&& r.1.stmts == s.stmts
            &&& r.1.element_index == s.element_index
        }),
{
    lemma_pick_key_acc_shape(attrs, 0, Seq::empty(), false, s);
}

} // verus!
