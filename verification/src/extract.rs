//! The dynamic-part extractor: one depth-first walk over the marked tree
//! that emits the static construction statements and the ordered list of
//! dynamic parts.

use vstd::prelude::*;

use crate::ast::{
    attr_key_v, attr_or_spread_v, attr_v, attr_val_v, attrs_v, child_v, children_v, elem_v,
    expr_v, lemma_attrs_v, lemma_children_v, lit_v, obj_prop_v, obj_props_v, obj_v, opt_attr_val_v,
    AttrKey, AttrKeyV, AttrOrSpread, AttrOrSpreadV, AttrVal, AttrValV, ElemName, ElemNameV,
    JsExpr, JsExprV, JsxAttr, JsxAttrV, JsxChild, JsxChildV, JsxElem, JsxElemV, LitKind,
    LitKindV, ObjLit, ObjLitV, ObjProp, ObjPropV, PropKey, PropKeyV,
};
use crate::attr_name::{attr_name_v, classify_ns_v, classify_v, AttrName, AttrNameV};
use crate::diag::{err_v, CompileError, CompileErrorV, DiagLevel, Diagnostics, DiagnosticV};
use crate::jsx::{
    attr_value_expr_v, children_full_dynamic_v, children_to_expr_v, is_custom_v,
    is_internal_slot_v, is_list_item_v, is_list_v, is_tag_v, jsx_attr_value, jsx_children_to_expr,
    jsx_is_children_full_dynamic, jsx_is_custom, jsx_is_internal_slot, jsx_is_list,
    jsx_is_list_item, jsx_unwrap_internal_slot, unwrap_internal_slot_v, wrapper_elem_v,
};
use crate::marker::{sat_inc, sat_inc_v};
use crate::snapshot::{
    create_kind_v, lemma_parts_v, lemma_stmts_v, part_v, parts_v, stmt_v, stmts_v, CreateKind,
    CreateKindV,
    DynamicPart, DynamicPartV, Stmt, StmtV,
};
use crate::strutil::str_eq;
use crate::style::{
    get_inline_style_from_object, get_string_inline_style_from_literal, is_literal,
    is_literal_v, lemma_style_props_v, string_style_v, style_ids_v, style_prop_v,
    style_props_v, style_zip_v, CssPropertyTable, CssPropertyV, StyleProp, StylePropV,
};
use crate::text::{attr_str_v, jsx_text_to_str, text_norm_v, transform_jsx_attr_str};

verus! {

// ---------------------------------------------------------------------------
// Extraction state.
// ---------------------------------------------------------------------------

/// The walk's running state: the next element index, the statements and
/// parts collected so far, the lifted root key, and two latches.
pub struct ExtractState {
    pub element_index: usize,
    pub stmts: Vec<Stmt>,
    pub parts: Vec<DynamicPart>,
    pub key: Option<AttrVal>,
    pub page_declared: bool,
    pub uses_instance: bool,
}

/// Ghost mirror of the state, with the diagnostics folded in.
pub struct ExtractStateV {
    pub element_index: int,
    pub stmts: Seq<StmtV>,
    pub parts: Seq<DynamicPartV>,
    pub key: Option<AttrValV>,
    pub page_declared: bool,
    pub uses_instance: bool,
    pub diags: Seq<DiagnosticV>,
}

pub open spec fn state_v(st: ExtractState, diags: Seq<DiagnosticV>) -> ExtractStateV {
    ExtractStateV {
        element_index: st.element_index as int,
        stmts: stmts_v(st.stmts@),
        parts: parts_v(st.parts@),
        key: opt_attr_val_v(st.key),
        page_declared: st.page_declared,
        uses_instance: st.uses_instance,
        diags,
    }
}

impl ExtractState {
    pub fn new() -> (r: ExtractState)
        ensures
            state_v(r, Seq::<DiagnosticV>::empty()) == empty_state_v(),
    {
        let r = ExtractState {
            element_index: 0,
            stmts: Vec::new(),
            parts: Vec::new(),
            key: Option::None,
            page_declared: false,
            uses_instance: false,
        };
        proof {
            assert(stmts_v(r.stmts@) =~= Seq::<StmtV>::empty());
            assert(parts_v(r.parts@) =~= Seq::<DynamicPartV>::empty());
        }
        r
    }
}

pub open spec fn empty_state_v() -> ExtractStateV {
    ExtractStateV {
        element_index: 0,
        stmts: Seq::empty(),
        parts: Seq::empty(),
        key: Option::None,
        page_declared: false,
        uses_instance: false,
        diags: Seq::empty(),
    }
}

pub open spec fn st_stmt(s: ExtractStateV, stmt: StmtV) -> ExtractStateV {
    ExtractStateV { stmts: s.stmts.push(stmt), ..s }
}

pub open spec fn st_part(s: ExtractStateV, p: DynamicPartV) -> ExtractStateV {
    ExtractStateV { parts: s.parts.push(p), ..s }
}

pub open spec fn st_warn(s: ExtractStateV, msg: Seq<char>) -> ExtractStateV {
    ExtractStateV {
        diags: s.diags.push(DiagnosticV { level: DiagLevel::Warning, message: msg }),
        ..s
    }
}

pub open spec fn st_error(s: ExtractStateV, msg: Seq<char>) -> ExtractStateV {
    ExtractStateV {
        diags: s.diags.push(DiagnosticV { level: DiagLevel::Error, message: msg }),
        ..s
    }
}

pub open spec fn st_bump(s: ExtractStateV) -> ExtractStateV {
    ExtractStateV { element_index: sat_inc_v(s.element_index), ..s }
}

/// The walk's outcome: the final state, and the hard error that stopped
/// it, if one did.
pub struct ExtractOutcomeV {
    pub st: ExtractStateV,
    pub err: Option<CompileErrorV>,
}

pub open spec fn ok_v(s: ExtractStateV) -> ExtractOutcomeV {
    ExtractOutcomeV { st: s, err: Option::None }
}

pub open spec fn opt_idx_v(p: Option<usize>) -> Option<int> {
    match p {
        Option::None => Option::None,
        Option::Some(i) => Option::Some(i as int),
    }
}

// ---------------------------------------------------------------------------
// Small tag and attribute-name tables.
// ---------------------------------------------------------------------------

/// The creation call for a tag.
pub open spec fn kind_of_tag_v(t: Seq<char>) -> CreateKindV {
    if t == "view"@ {
        CreateKindV::View
    } else if t == "scroll-view"@ {
        CreateKindV::ScrollView
    } else if t == "x-scroll-view"@ {
        CreateKindV::XScrollView
    } else if t == "image"@ {
        CreateKindV::Image
    } else if t == "text"@ {
        CreateKindV::Text
    } else if t == "wrapper"@ {
        CreateKindV::Wrapper
    } else if t == "list"@ {
        CreateKindV::List
    } else {
        CreateKindV::Named(t)
    }
}

/// Attributes that force `flatten=false` unless `flatten` is explicit.
pub open spec fn is_no_flatten_name_v(n: Seq<char>) -> bool {
    n == "name"@ || n == "clip-radius"@ || n == "overlap"@ || n == "exposure-scene"@ || n
        == "exposure-id"@
}

/// The fixed attribute set hoisted from a `list-item` into one aggregated
/// platform-info part.
pub open spec fn is_li_info_name_v(n: Seq<char>) -> bool {
    n == "reuse-identifier"@ || n == "full-span"@ || n == "item-key"@ || n == "sticky-top"@ || n
        == "sticky-bottom"@ || n == "estimated-height"@ || n == "estimated-height-px"@ || n
        == "estimated-main-axis-size-px"@
}

pub open spec fn attr_ident_name_v(a: AttrOrSpreadV) -> Option<Seq<char>> {
    match a {
        AttrOrSpreadV::Attr(at) => match at.key {
            AttrKeyV::Ident(n) => Option::Some(n),
            AttrKeyV::Ns(_, _) => Option::None,
        },
        AttrOrSpreadV::Spread(_) => Option::None,
    }
}

// ---------------------------------------------------------------------------
// The flatten rule.
// ---------------------------------------------------------------------------

pub open spec fn any_no_flatten_v(attrs: Seq<AttrOrSpreadV>) -> bool
    decreases attrs,
{
    if attrs.len() == 0 {
        false
    } else {
        (attr_ident_name_v(attrs[0]) matches Option::Some(n) && is_no_flatten_name_v(n))
            || any_no_flatten_v(attrs.drop_first())
    }
}

pub open spec fn any_flatten_attr_v(attrs: Seq<AttrOrSpreadV>) -> bool
    decreases attrs,
{
    if attrs.len() == 0 {
        false
    } else {
        (attr_ident_name_v(attrs[0]) == Option::Some("flatten"@)) || any_flatten_attr_v(
            attrs.drop_first(),
        )
    }
}

pub open spec fn flatten_false_attr_v() -> AttrOrSpreadV {
    AttrOrSpreadV::Attr(
        JsxAttrV {
            key: AttrKeyV::Ident("flatten"@),
            val: Option::Some(AttrValV::Lit(LitKindV::Bool(false))),
        },
    )
}

/// The implicit-flatten rule: an element carrying a no-flatten attribute
/// and no explicit `flatten` gets a static `flatten=false` appended; an
/// explicit `flatten` is always respected and keeps the value its author
/// wrote.
pub open spec fn apply_flatten_v(attrs: Seq<AttrOrSpreadV>) -> Seq<AttrOrSpreadV> {
    if any_no_flatten_v(attrs) && !any_flatten_attr_v(attrs) {
        attrs.push(flatten_false_attr_v())
    } else {
        attrs
    }
}

// ---------------------------------------------------------------------------
// The list-item hoist.
// ---------------------------------------------------------------------------

pub open spec fn li_split_acc(
    attrs: Seq<AttrOrSpreadV>,
    i: int,
    kept: Seq<AttrOrSpreadV>,
    hoisted: Seq<JsxAttrV>,
) -> (Seq<AttrOrSpreadV>, Seq<JsxAttrV>)
    decreases attrs.len() - i,
{
    if i < 0 || i >= attrs.len() {
        (kept, hoisted)
    } else {
        match attrs[i] {
            AttrOrSpreadV::Attr(at) => match at.key {
                AttrKeyV::Ident(n) => if is_li_info_name_v(n) {
                    li_split_acc(attrs, i + 1, kept, hoisted.push(at))
                } else {
                    li_split_acc(attrs, i + 1, kept.push(attrs[i]), hoisted)
                },
                AttrKeyV::Ns(_, _) => li_split_acc(attrs, i + 1, kept.push(attrs[i]), hoisted),
            },
            AttrOrSpreadV::Spread(_) => li_split_acc(attrs, i + 1, kept.push(attrs[i]), hoisted),
        }
    }
}

pub open spec fn li_split_v(attrs: Seq<AttrOrSpreadV>) -> (Seq<AttrOrSpreadV>, Seq<JsxAttrV>) {
    li_split_acc(attrs, 0, Seq::empty(), Seq::empty())
}

pub open spec fn li_props_acc(hoisted: Seq<JsxAttrV>, i: int, out: Seq<ObjPropV>) -> Seq<
    ObjPropV,
>
    decreases hoisted.len() - i,
{
    if i < 0 || i >= hoisted.len() {
        out
    } else {
        li_props_acc(
            hoisted,
            i + 1,
            out.push(
                ObjPropV::KeyValue(
                    PropKeyV::Str(attr_key_name_v(hoisted[i].key)),
                    attr_value_expr_v(hoisted[i].val),
                ),
            ),
        )
    }
}

pub open spec fn li_props_v(hoisted: Seq<JsxAttrV>) -> Seq<ObjPropV> {
    li_props_acc(hoisted, 0, Seq::empty())
}

/// The printed name of an attribute key (`ns:name` for a namespaced one).
pub open spec fn attr_key_name_v(k: AttrKeyV) -> Seq<char> {
    match k {
        AttrKeyV::Ident(n) => n,
        AttrKeyV::Ns(ns, n) => ns + ":"@ + n,
    }
}

// ---------------------------------------------------------------------------
// Key picking.
// ---------------------------------------------------------------------------

/// Removes every `key` attribute. On the root the last value is lifted
/// into the state; elsewhere each occurrence warns.
pub open spec fn pick_key_acc(
    attrs: Seq<AttrOrSpreadV>,
    i: int,
    out: Seq<AttrOrSpreadV>,
    is_root: bool,
    s: ExtractStateV,
) -> (Seq<AttrOrSpreadV>, ExtractStateV)
    decreases attrs.len() - i,
{
    if i < 0 || i >= attrs.len() {
        (out, s)
    } else {
        let is_key = attr_ident_name_v(attrs[i]) == Option::Some("key"@);
        if is_key {
            let s1 = if is_root {
                ExtractStateV {
                    key: match attrs[i] {
                        AttrOrSpreadV::Attr(at) => at.val,
                        AttrOrSpreadV::Spread(_) => s.key,
                    },
                    ..s
                }
            } else {
                st_warn(s, "key is not on root element of snapshot"@)
            };
            pick_key_acc(attrs, i + 1, out, is_root, s1)
        } else {
            pick_key_acc(attrs, i + 1, out.push(attrs[i]), is_root, s)
        }
    }
}

pub open spec fn pick_key_v(attrs: Seq<AttrOrSpreadV>, is_root: bool, s: ExtractStateV) -> (
    Seq<AttrOrSpreadV>,
    ExtractStateV,
) {
    pick_key_acc(attrs, 0, Seq::empty(), is_root, s)
}

// ---------------------------------------------------------------------------
// The spread object.
// ---------------------------------------------------------------------------

pub open spec fn spread_props_acc(
    attrs: Seq<AttrOrSpreadV>,
    i: int,
    out: Seq<ObjPropV>,
) -> Seq<ObjPropV>
    decreases attrs.len() - i,
{
    if i < 0 || i >= attrs.len() {
        out
    } else {
        let head = (match attrs[i] {
            AttrOrSpreadV::Attr(at) => ObjPropV::KeyValue(
                PropKeyV::Str(attr_key_name_v(at.key)),
                attr_value_expr_v(at.val),
            ),
            AttrOrSpreadV::Spread(e) => ObjPropV::Spread(e),
        });
        spread_props_acc(attrs, i + 1, out.push(head))
    }
}

pub open spec fn spread_props_v(attrs: Seq<AttrOrSpreadV>) -> Seq<ObjPropV> {
    spread_props_acc(attrs, 0, Seq::empty())
}

/// All attributes of a spread-using element as one object, with the
/// `__spread: true` marker appended.
pub open spec fn spread_obj_v(attrs: Seq<AttrOrSpreadV>) -> ObjLitV {
    ObjLitV {
        props: spread_props_v(attrs).push(
            ObjPropV::KeyValue(PropKeyV::Ident("__spread"@), JsExprV::Lit(LitKindV::Bool(true))),
        ),
    }
}

pub open spec fn any_spread_v(attrs: Seq<AttrOrSpreadV>) -> bool
    decreases attrs,
{
    if attrs.len() == 0 {
        false
    } else {
        (attrs[0] matches AttrOrSpreadV::Spread(_)) || any_spread_v(attrs.drop_first())
    }
}

// ---------------------------------------------------------------------------
// The style attribute.
// ---------------------------------------------------------------------------

/// Splits decomposed style properties: every literal-valued property
/// becomes its own static call, and the non-literal properties merge into
/// one parsed-style block sharing a single expression index.
pub open spec fn style_fold_v(
    styles: Seq<StylePropV>,
    i: int,
    idx: int,
    block_ids: Seq<u32>,
    block_vals: Seq<JsExprV>,
    s: ExtractStateV,
) -> ExtractStateV
    decreases styles.len() - i,
{
    if i < 0 || i >= styles.len() {
        if block_ids.len() > 0 {
            st_part(
                s,
                DynamicPartV::Attr(
                    JsExprV::Arr(block_vals),
                    idx,
                    AttrNameV::ParsedStyle(block_ids),
                ),
            )
        } else {
            s
        }
    } else {
        let sp = styles[i];
        if is_literal_v(sp.value) {
            style_fold_v(
                styles,
                i + 1,
                idx,
                block_ids,
                block_vals,
                st_stmt(s, StmtV::AddInlineStyle(idx, sp.id, sp.value)),
            )
        } else {
            style_fold_v(
                styles,
                i + 1,
                idx,
                block_ids.push(sp.id),
                block_vals.push(sp.value),
                s,
            )
        }
    }
}

/// The whole style-attribute rule for an expression-valued `style`.
pub open spec fn style_attr_v(
    e: JsExprV,
    idx: int,
    table: Seq<CssPropertyV>,
    s: ExtractStateV,
) -> ExtractStateV {
    if is_literal_v(e) {
        let r = string_style_v(e);
        let s1 = if r.1 {
            st_warn(s, "Unexpected literal for style"@)
        } else {
            s
        };
        match r.0 {
            Option::Some(text) => st_stmt(s1, StmtV::SetInlineStyles(idx, LitKindV::Str(text))),
            Option::None => s1,
        }
    } else {
        match e {
            JsExprV::Object(o) => {
                let r = style_ids_v(o.props, 0, Seq::empty(), table);
                let s1 = if r.1 {
                    st_warn(s, "Unknown css property, fallbak to SetInlineStyle"@)
                } else {
                    s
                };
                match r.0 {
                    Option::Some(ids) => {
                        let styles = style_zip_v(o.props, ids, 0);
                        let s2 = if styles.len() == 0 {
                            st_part(s1, DynamicPartV::Attr(e, idx, AttrNameV::Style))
                        } else {
                            s1
                        };
                        style_fold_v(styles, 0, idx, Seq::empty(), Seq::empty(), s2)
                    },
                    Option::None => st_part(s1, DynamicPartV::Attr(e, idx, AttrNameV::Style)),
                }
            },
            _ => st_part(s, DynamicPartV::Attr(e, idx, AttrNameV::Style)),
        }
    }
}

// ---------------------------------------------------------------------------
// One attribute.
// ---------------------------------------------------------------------------

/// A string-literal value is escaped before classification.
pub open spec fn transform_attr_val_v(val: Option<AttrValV>) -> Option<AttrValV> {
    match val {
        Option::Some(AttrValV::Lit(LitKindV::Str(s))) => Option::Some(
            AttrValV::Lit(LitKindV::Str(attr_str_v(s, 0, false))),
        ),
        _ => val,
    }
}

/// What one classified attribute contributes: a static setter statement, a
/// dynamic part, a diagnostic, or a hard error.
pub open spec fn process_attr_v(
    a: AttrOrSpreadV,
    idx: int,
    table: Seq<CssPropertyV>,
    s: ExtractStateV,
) -> ExtractOutcomeV {
    match a {
        AttrOrSpreadV::Spread(_) => ok_v(s),  // never present on this path
        AttrOrSpreadV::Attr(at0) => {
            let at = JsxAttrV { key: at0.key, val: transform_attr_val_v(at0.val) };
            match at.key {
                AttrKeyV::Ident(name) => process_ident_attr_v(name, at.val, idx, table, s),
                AttrKeyV::Ns(ns, name) => match classify_ns_v(ns, name) {
                    Result::Ok(an) => ok_v(
                        st_part(
                            s,
                            DynamicPartV::Attr(attr_value_expr_v(at.val), idx, an),
                        ),
                    ),
                    Result::Err(e) => ExtractOutcomeV { st: s, err: Option::Some(e) },
                },
            }
        },
    }
}

pub open spec fn process_ident_attr_v(
    name: Seq<char>,
    val: Option<AttrValV>,
    idx: int,
    table: Seq<CssPropertyV>,
    s: ExtractStateV,
) -> ExtractOutcomeV {
    match classify_v(name) {
        AttrNameV::Attr(n) => ok_v(
            match val {
                Option::None => st_stmt(s, StmtV::SetAttr(idx, n, LitKindV::Bool(true))),
                Option::Some(AttrValV::Lit(l)) => st_stmt(s, StmtV::SetAttr(idx, n, l)),
                Option::Some(AttrValV::Expr(e)) => match e {
                    JsExprV::Lit(l2) => st_stmt(s, StmtV::SetAttr(idx, n, l2)),
                    _ => st_part(s, DynamicPartV::Attr(e, idx, AttrNameV::Attr(n))),
                },
                Option::Some(AttrValV::EmptyExpr) => s,
            },
        ),
        AttrNameV::Dataset(n) => ok_v(
            match val {
                Option::None => st_stmt(s, StmtV::AddDataset(idx, n, LitKindV::Bool(true))),
                Option::Some(AttrValV::Lit(l)) => st_stmt(s, StmtV::AddDataset(idx, n, l)),
                Option::Some(AttrValV::Expr(e)) => st_part(
                    s,
                    DynamicPartV::Attr(e, idx, AttrNameV::Dataset(n)),
                ),
                Option::Some(AttrValV::EmptyExpr) => s,
            },
        ),
        AttrNameV::Event(t, n) => ok_v(
            st_part(s, DynamicPartV::Attr(attr_value_expr_v(val), idx, AttrNameV::Event(t, n))),
        ),
        AttrNameV::Ref => ok_v(
            st_part(s, DynamicPartV::Attr(attr_value_expr_v(val), idx, AttrNameV::Ref)),
        ),
        AttrNameV::TimingFlag => ok_v(
            st_part(
                s,
                DynamicPartV::Attr(
                    JsExprV::Object(
                        ObjLitV {
                            props: seq![
                                ObjPropV::KeyValue(
                                    PropKeyV::Ident("__ltf"@),
                                    attr_value_expr_v(val),
                                ),
                            ],
                        },
                    ),
                    idx,
                    AttrNameV::TimingFlag,
                ),
            ),
        ),
        AttrNameV::Style => ok_v(
            match val {
                Option::None => s,
                Option::Some(AttrValV::Lit(l)) => st_stmt(s, StmtV::SetInlineStyles(idx, l)),
                Option::Some(AttrValV::Expr(e)) => style_attr_v(e, idx, table, s),
                Option::Some(AttrValV::EmptyExpr) => s,
            },
        ),
        AttrNameV::Class => ok_v(
            match val {
                Option::None => s,
                Option::Some(AttrValV::Lit(l)) => st_stmt(s, StmtV::SetClasses(idx, l)),
                Option::Some(AttrValV::Expr(e)) => match e {
                    JsExprV::Lit(l2) => st_stmt(s, StmtV::SetClasses(idx, l2)),
                    _ => st_part(s, DynamicPartV::Attr(e, idx, AttrNameV::Class)),
                },
                Option::Some(AttrValV::EmptyExpr) => s,
            },
        ),
        AttrNameV::ID => ok_v(
            match val {
                Option::None => s,
                Option::Some(AttrValV::Lit(l)) => st_stmt(s, StmtV::SetId(idx, l)),
                Option::Some(AttrValV::Expr(e)) => st_part(
                    s,
                    DynamicPartV::Attr(e, idx, AttrNameV::ID),
                ),
                Option::Some(AttrValV::EmptyExpr) => s,
            },
        ),
        // classification of a plain name never yields the remaining kinds
        _ => ok_v(s),
    }
}

/// The attribute fold, stopping at the first hard error.
pub open spec fn attrs_fold_v(
    attrs: Seq<AttrOrSpreadV>,
    i: int,
    idx: int,
    table: Seq<CssPropertyV>,
    s: ExtractStateV,
) -> ExtractOutcomeV
    decreases attrs.len() - i,
{
    if i < 0 || i >= attrs.len() {
        ok_v(s)
    } else {
        let r = process_attr_v(attrs[i], idx, table, s);
        match r.err {
            Option::Some(_) => r,
            Option::None => attrs_fold_v(attrs, i + 1, idx, table, r.st),
        }
    }
}


// ---------------------------------------------------------------------------
// The walk itself.
// ---------------------------------------------------------------------------

/// The inlined handling of a synthetic empty `<wrapper/>`: declare the
/// page id if needed, create the wrapper element, append it, move on.
pub open spec fn simple_wrapper_v(parent: Option<int>, s: ExtractStateV) -> ExtractStateV {
    let s1 = if !s.page_declared {
        ExtractStateV { page_declared: true, ..st_stmt(s, StmtV::DeclarePageId) }
    } else {
        s
    };
    let idx = s1.element_index;
    let s2 = st_bump(st_stmt(s1, StmtV::Create(idx, CreateKindV::Wrapper)));
    match parent {
        Option::Some(p) => st_stmt(s2, StmtV::Append(p, idx)),
        Option::None => s2,
    }
}

/// One element of the marked tree.
pub open spec fn extract_elem_v(
    el: JsxElemV,
    parent: Option<int>,
    cnt: int,
    table: Seq<CssPropertyV>,
    s: ExtractStateV,
) -> ExtractOutcomeV
    decreases el, 3int,
{
    if is_internal_slot_v(el) && cnt > 1 {
        // an independently addressable slot: its payload becomes a Slot
        // part and an empty wrapper element takes its place
        let s1 = st_part(s, DynamicPartV::Slot(unwrap_internal_slot_v(el), s.element_index));
        ok_v(simple_wrapper_v(parent, s1))
    } else if is_internal_slot_v(el) {
        extract_core_v(unwrap_internal_slot_v(el), parent, cnt, table, s)
    } else {
        extract_core_v(el, parent, cnt, table, s)
    }
}

/// A custom component or a concrete element.
pub open spec fn extract_core_v(
    el: JsxElemV,
    parent: Option<int>,
    cnt: int,
    table: Seq<CssPropertyV>,
    s: ExtractStateV,
) -> ExtractOutcomeV
    decreases el, 2int,
{
    if is_custom_v(el) {
        match parent {
            Option::Some(_) => {
                // the component is one opaque Children part; a wrapper
                // element stands in its place
                let s1 = st_part(
                    s,
                    DynamicPartV::Children(JsExprV::Jsx(el), s.element_index),
                );
                ok_v(simple_wrapper_v(parent, s1))
            },
            Option::None => ok_v(s),
        }
    } else {
        let s0 = if crate::jsx::tag_has_namespace_v(el.name) {
            st_error(s, "JSX Namespace is disabled"@)
        } else {
            s
        };
        let s1 = if !s0.page_declared {
            ExtractStateV { page_declared: true, ..st_stmt(s0, StmtV::DeclarePageId) }
        } else {
            s0
        };
        let idx = s1.element_index;
        let kind = (match el.name {
            ElemNameV::Tag(t) => kind_of_tag_v(t),
            ElemNameV::Component(_) => CreateKindV::View,  // unreachable: custom handled above
        });
        let s2 = ExtractStateV {
            uses_instance: s1.uses_instance || (kind is List),
            ..st_bump(st_stmt(s1, StmtV::Create(idx, kind)))
        };
        let attrs1 = apply_flatten_v(el.attrs);
        let has_spread = any_spread_v(attrs1);
        let li = is_list_item_v(el) && !has_spread;
        let split = if li {
            li_split_v(attrs1)
        } else {
            (attrs1, Seq::<JsxAttrV>::empty())
        };
        let attrs2 = split.0;
        let s3 = if li && split.1.len() > 0 {
            st_part(
                s2,
                DynamicPartV::Attr(
                    JsExprV::Object(ObjLitV { props: li_props_v(split.1) }),
                    idx,
                    AttrNameV::ListItemPlatformInfo,
                ),
            )
        } else {
            s2
        };
        let picked = pick_key_v(attrs2, parent is None, s3);
        let attrs3 = picked.0;
        let s4 = picked.1;
        let after_attrs = if has_spread {
            ok_v(st_part(s4, DynamicPartV::Spread(spread_obj_v(attrs3), idx)))
        } else {
            attrs_fold_v(attrs3, 0, idx, table, s4)
        };
        match after_attrs.err {
            Option::Some(_) => after_attrs,
            Option::None => {
                let s5 = after_attrs.st;
                let s6 = (match parent {
                    Option::Some(p) => st_stmt(s5, StmtV::Append(p, idx)),
                    Option::None => s5,
                });
                let full_dyn = is_list_v(el) || children_full_dynamic_v(el);
                if !full_dyn {
                    children_fold_v(el.children, 0, Option::Some(idx), cnt, table, s6)
                } else {
                    let part = if is_list_v(el) {
                        DynamicPartV::ListChildren(children_to_expr_v(el.children), idx)
                    } else {
                        DynamicPartV::Children(children_to_expr_v(el.children), idx)
                    };
                    ok_v(st_part(s6, part))
                }
            },
        }
    }
}

/// One child of a statically built element.
pub open spec fn extract_child_v(
    c: JsxChildV,
    parent: Option<int>,
    cnt: int,
    table: Seq<CssPropertyV>,
    s: ExtractStateV,
) -> ExtractOutcomeV
    decreases c, 0int,
{
    match c {
        JsxChildV::Elem(e) => extract_elem_v(e, parent, cnt, table, s),
        JsxChildV::Text(t) => {
            let norm = text_norm_v(t);
            if norm.len() == 0 {
                ok_v(s)
            } else {
                let idx = s.element_index;
                let s1 = st_bump(st_stmt(s, StmtV::Create(idx, CreateKindV::RawText(norm))));
                ok_v(
                    match parent {
                        Option::Some(p) => st_stmt(s1, StmtV::Append(p, idx)),
                        Option::None => s1,
                    },
                )
            }
        },
        JsxChildV::ExprChild(e) => {
            // a bare expression child outside any slot: one Children part,
            // with a wrapper element standing in its place
            let s1 = st_part(s, DynamicPartV::Children(e, s.element_index));
            ok_v(simple_wrapper_v(parent, s1))
        },
        JsxChildV::EmptyExprChild => ok_v(s),
        JsxChildV::Frag(inner) => children_fold_v(inner, 0, parent, cnt, table, s),
    }
}

/// The fold over a child list, stopping at the first hard error.
pub open spec fn children_fold_v(
    cs: Seq<JsxChildV>,
    i: int,
    parent: Option<int>,
    cnt: int,
    table: Seq<CssPropertyV>,
    s: ExtractStateV,
) -> ExtractOutcomeV
    decreases cs, 1int, cs.len() - i,
{
    if i < 0 || i >= cs.len() {
        ok_v(s)
    } else {
        let r = extract_child_v(cs[i], parent, cnt, table, s);
        match r.err {
            Option::Some(_) => r,
            Option::None => children_fold_v(cs, i + 1, parent, cnt, table, r.st),
        }
    }
}


// ---------------------------------------------------------------------------
// Executable state operations.
// ---------------------------------------------------------------------------

impl ExtractState {
    fn push_stmt(&mut self, stmt: Stmt)
        ensures
            forall|d: Seq<DiagnosticV>|
                state_v(*final(self), d) == st_stmt(#[trigger] state_v(*old(self), d), stmt_v(stmt)),
    {
        let ghost prev = self.stmts@;
        let ghost sv = stmt_v(stmt);
        self.stmts.push(stmt);
        proof {
            assert(self.stmts@.drop_last() =~= prev);
            assert(stmts_v(self.stmts@) == stmts_v(prev).push(sv));
        }
    }

    fn push_part(&mut self, p: DynamicPart)
        ensures
            forall|d: Seq<DiagnosticV>|
                state_v(*final(self), d) == st_part(#[trigger] state_v(*old(self), d), part_v(p)),
    {
        let ghost prev = self.parts@;
        let ghost pv = part_v(p);
        self.parts.push(p);
        proof {
            assert(self.parts@.drop_last() =~= prev);
            assert(parts_v(self.parts@) == parts_v(prev).push(pv));
        }
    }

    fn bump(&mut self)
        ensures
            forall|d: Seq<DiagnosticV>|
                state_v(*final(self), d) == st_bump(#[trigger] state_v(*old(self), d)),
    {
        self.element_index = sat_inc(self.element_index);
    }

    /// Appends the creator's final return statement.
    pub fn push_return_stmt(&mut self)
        ensures
            forall|d: Seq<DiagnosticV>|
                state_v(*final(self), d) == st_stmt(
                    #[trigger] state_v(*old(self), d),
                    StmtV::ReturnElements,
                ),
    {
        self.push_stmt(Stmt::ReturnElements);
    }
}

/// The inlined handling of a synthetic empty wrapper element.
fn simple_wrapper(parent: Option<usize>, st: &mut ExtractState, Ghost(d): Ghost<Seq<DiagnosticV>>)
    ensures
        state_v(*final(st), d) == simple_wrapper_v(opt_idx_v(parent), state_v(*old(st), d)),
{
    if !st.page_declared {
        st.push_stmt(Stmt::DeclarePageId);
        st.page_declared = true;
    }
    let idx = st.element_index;
    st.push_stmt(Stmt::Create(idx, CreateKind::Wrapper));
    st.bump();
    match parent {
        Option::Some(p) => {
            st.push_stmt(Stmt::Append(p, idx));
        },
        Option::None => {},
    }
}

// ---------------------------------------------------------------------------
// Executable attribute-list transforms.
// ---------------------------------------------------------------------------

/// Whether this attribute is a plain attribute with the given name.
fn attr_ident_is(a: &AttrOrSpread, name: &str) -> (r: bool)
    ensures
        r == (attr_ident_name_v(attr_or_spread_v(*a)) == Option::Some(name@)),
{
    match a {
        AttrOrSpread::Attr(at) => match &at.key {
            AttrKey::Ident(n) => str_eq(n, name),
            AttrKey::Ns(_, _) => false,
        },
        AttrOrSpread::Spread(_) => false,
    }
}

fn attr_is_no_flatten(a: &AttrOrSpread) -> (r: bool)
    ensures
        r == (attr_ident_name_v(attr_or_spread_v(*a)) matches Option::Some(n)
            && is_no_flatten_name_v(n)),
{
    attr_ident_is(a, "name") || attr_ident_is(a, "clip-radius") || attr_ident_is(a, "overlap")
        || attr_ident_is(a, "exposure-scene") || attr_ident_is(a, "exposure-id")
}

fn attr_is_li_info(a: &JsxAttr) -> (r: bool)
    ensures
        r == (attr_key_v(a.key) matches AttrKeyV::Ident(n) && is_li_info_name_v(n)),
{
    match &a.key {
        AttrKey::Ident(n) => str_eq(n, "reuse-identifier") || str_eq(n, "full-span") || str_eq(
            n,
            "item-key",
        ) || str_eq(n, "sticky-top") || str_eq(n, "sticky-bottom") || str_eq(
            n,
            "estimated-height",
        ) || str_eq(n, "estimated-height-px") || str_eq(n, "estimated-main-axis-size-px"),
        AttrKey::Ns(_, _) => false,
    }
}

fn scan_any_no_flatten(attrs: &Vec<AttrOrSpread>) -> (r: bool)
    ensures
        r == any_no_flatten_v(attrs_v(attrs@)),
{
    proof {
        lemma_attrs_v(attrs@);
    }
    let ghost av = attrs_v(attrs@);
    let n = attrs.len();
    let mut i: usize = 0;
    proof {
        assert(av.skip(0) =~= av);
    }
    while i < n
        invariant
            i <= n,
            n == attrs@.len(),
            av == attrs_v(attrs@),
            av.len() == n,
            forall|j: int| 0 <= j < n ==> av[j] == attr_or_spread_v(#[trigger] attrs@[j]),
            any_no_flatten_v(av) == any_no_flatten_v(av.skip(i as int)),
        decreases n - i,
    {
        let hit = attr_is_no_flatten(&attrs[i]);
        proof {
            assert(av.skip(i as int)[0] == av[i as int]);
            assert(av.skip(i as int).drop_first() =~= av.skip(i + 1));
        }
        if hit {
            return true;
        }
        i += 1;
    }
    proof {
        assert(av.skip(n as int) =~= Seq::<AttrOrSpreadV>::empty());
    }
    false
}

fn scan_any_flatten(attrs: &Vec<AttrOrSpread>) -> (r: bool)
    ensures
        r == any_flatten_attr_v(attrs_v(attrs@)),
{
    proof {
        lemma_attrs_v(attrs@);
    }
    let ghost av = attrs_v(attrs@);
    let n = attrs.len();
    let mut i: usize = 0;
    proof {
        assert(av.skip(0) =~= av);
    }
    while i < n
        invariant
            i <= n,
            n == attrs@.len(),
            av == attrs_v(attrs@),
            av.len() == n,
            forall|j: int| 0 <= j < n ==> av[j] == attr_or_spread_v(#[trigger] attrs@[j]),
            any_flatten_attr_v(av) == any_flatten_attr_v(av.skip(i as int)),
        decreases n - i,
    {
        let hit = attr_ident_is(&attrs[i], "flatten");
        proof {
            assert(av.skip(i as int)[0] == av[i as int]);
            assert(av.skip(i as int).drop_first() =~= av.skip(i + 1));
        }
        if hit {
            return true;
        }
        i += 1;
    }
    proof {
        assert(av.skip(n as int) =~= Seq::<AttrOrSpreadV>::empty());
    }
    false
}

fn scan_any_spread(attrs: &Vec<AttrOrSpread>) -> (r: bool)
    ensures
        r == any_spread_v(attrs_v(attrs@)),
{
    proof {
        lemma_attrs_v(attrs@);
    }
    let ghost av = attrs_v(attrs@);
    let n = attrs.len();
    let mut i: usize = 0;
    proof {
        assert(av.skip(0) =~= av);
    }
    while i < n
        invariant
            i <= n,
            n == attrs@.len(),
            av == attrs_v(attrs@),
            av.len() == n,
            forall|j: int| 0 <= j < n ==> av[j] == attr_or_spread_v(#[trigger] attrs@[j]),
            any_spread_v(av) == any_spread_v(av.skip(i as int)),
        decreases n - i,
    {
        let hit = match &attrs[i] {
            AttrOrSpread::Spread(_) => true,
            AttrOrSpread::Attr(_) => false,
        };
        proof {
            assert(av.skip(i as int)[0] == av[i as int]);
            assert(av.skip(i as int).drop_first() =~= av.skip(i + 1));
        }
        if hit {
            return true;
        }
        i += 1;
    }
    proof {
        assert(av.skip(n as int) =~= Seq::<AttrOrSpreadV>::empty());
    }
    false
}

fn flatten_false_attr() -> (r: AttrOrSpread)
    ensures
        attr_or_spread_v(r) == flatten_false_attr_v(),
{
    AttrOrSpread::Attr(
        JsxAttr {
            key: AttrKey::Ident(String::from_str("flatten")),
            val: Option::Some(AttrVal::Lit(LitKind::Bool(false))),
        },
    )
}

/// Applies the implicit-flatten rule to an attribute list.
fn apply_flatten(attrs: Vec<AttrOrSpread>) -> (r: Vec<AttrOrSpread>)
    ensures
        attrs_v(r@) == apply_flatten_v(attrs_v(attrs@)),
{
    if scan_any_no_flatten(&attrs) && !scan_any_flatten(&attrs) {
        let ghost prev = attrs@;
        let mut out = attrs;
        out.push(flatten_false_attr());
        proof {
            assert(out@.drop_last() =~= prev);
            assert(attrs_v(out@) == attrs_v(prev).push(flatten_false_attr_v()));
        }
        out
    } else {
        attrs
    }
}

/// Splits a `list-item`'s attributes into the kept ones and the hoisted
/// platform-info ones.
pub open spec fn jsx_attrs_v(xs: Seq<JsxAttr>) -> Seq<JsxAttrV>
    decreases xs,
{
    if xs.len() == 0 {
        Seq::empty()
    } else {
        jsx_attrs_v(xs.drop_last()).push(attr_v(xs.last()))
    }
}

pub proof fn lemma_jsx_attrs_v(xs: Seq<JsxAttr>)
    ensures
        jsx_attrs_v(xs).len() == xs.len(),
        forall|j: int| 0 <= j < xs.len() ==> jsx_attrs_v(xs)[j] == attr_v(#[trigger] xs[j]),
    decreases xs,
{
    if xs.len() > 0 {
        lemma_jsx_attrs_v(xs.drop_last());
        assert forall|j: int| 0 <= j < xs.len() implies jsx_attrs_v(xs)[j] == attr_v(
            #[trigger] xs[j],
        ) by {
            if j < xs.len() - 1 {
                assert(jsx_attrs_v(xs)[j] == jsx_attrs_v(xs.drop_last())[j]);
                assert(xs.drop_last()[j] == xs[j]);
            }
        }
    }
}

fn li_split(attrs: Vec<AttrOrSpread>) -> (r: (Vec<AttrOrSpread>, Vec<JsxAttr>))
    ensures
        (attrs_v(r.0@), jsx_attrs_v(r.1@)) == li_split_v(attrs_v(attrs@)),
{
    let ghost av = attrs_v(attrs@);
    let mut kept: Vec<AttrOrSpread> = Vec::new();
    let mut hoisted: Vec<JsxAttr> = Vec::new();
    let mut rest = attrs;
    let mut i: usize = 0;
    let n = rest.len();
    let ghost whole = rest@;
    proof {
        lemma_attrs_v(whole);
        assert(attrs_v(kept@) =~= Seq::<AttrOrSpreadV>::empty());
        assert(jsx_attrs_v(hoisted@) =~= Seq::<JsxAttrV>::empty());
    }
    while i < n
        invariant
            i <= n,
            n == whole.len(),
            av == attrs_v(whole),
            av.len() == n,
            rest@ =~= whole.skip(i as int),
            li_split_acc(av, i as int, attrs_v(kept@), jsx_attrs_v(hoisted@)) == li_split_acc(
                av,
                0,
                Seq::empty(),
                Seq::empty(),
            ),
        decreases n - i,
    {
        proof {
            lemma_attrs_v(whole);
            assert(whole.skip(i as int)[0] == whole[i as int]);
            assert(whole.skip(i as int).drop_first() =~= whole.skip(i + 1));
            assert(attr_or_spread_v(whole[i as int]) == av[i as int]);
        }
        let a = rest.remove(0);
        proof {
            assert(a == whole[i as int]);
        }
        let hoist = match &a {
            AttrOrSpread::Attr(at) => attr_is_li_info(at),
            AttrOrSpread::Spread(_) => false,
        };
        if hoist {
            let ghost prev = hoisted@;
            match a {
                AttrOrSpread::Attr(at) => {
                    hoisted.push(at);
                },
                AttrOrSpread::Spread(_) => {
                    proof {
                        assert(false);
                    }
                },
            }
            proof {
                assert(hoisted@.drop_last() =~= prev);
            }
        } else {
            let ghost prev = kept@;
            kept.push(a);
            proof {
                assert(kept@.drop_last() =~= prev);
            }
        }
        proof {
            assert(rest@ =~= whole.skip(i + 1));
        }
        i += 1;
    }
    (kept, hoisted)
}

/// The printed name of an attribute key.
fn attr_key_name(k: AttrKey) -> (r: String)
    ensures
        r@ == attr_key_name_v(attr_key_v(k)),
{
    match k {
        AttrKey::Ident(n) => n,
        AttrKey::Ns(ns, n) => {
            let mut s = ns;
            s.append(":");
            s.append(n.as_str());
            s
        },
    }
}

/// The aggregated platform-info object of a `list-item`.
fn li_obj(hoisted: Vec<JsxAttr>) -> (r: ObjLit)
    ensures
        obj_v(r) == (ObjLitV { props: li_props_v(jsx_attrs_v(hoisted@)) }),
{
    let ghost hv = jsx_attrs_v(hoisted@);
    let mut props: Vec<ObjProp> = Vec::new();
    let mut rest = hoisted;
    let mut i: usize = 0;
    let n = rest.len();
    let ghost whole = rest@;
    proof {
        lemma_jsx_attrs_v(whole);
        assert(obj_props_v(props@) =~= Seq::<ObjPropV>::empty());
    }
    while i < n
        invariant
            i <= n,
            n == whole.len(),
            hv == jsx_attrs_v(whole),
            hv.len() == n,
            rest@ =~= whole.skip(i as int),
            li_props_acc(hv, i as int, obj_props_v(props@)) == li_props_acc(hv, 0, Seq::empty()),
        decreases n - i,
    {
        proof {
            lemma_jsx_attrs_v(whole);
            assert(whole.skip(i as int)[0] == whole[i as int]);
            assert(whole.skip(i as int).drop_first() =~= whole.skip(i + 1));
            assert(attr_v(whole[i as int]) == hv[i as int]);
        }
        let at = rest.remove(0);
        proof {
            assert(at == whole[i as int]);
        }
        let ghost prev = props@;
        let name = attr_key_name(at.key);
        let value = jsx_attr_value(at.val);
        props.push(ObjProp::KeyValue(PropKey::Str(name), value));
        proof {
            assert(props@.drop_last() =~= prev);
            assert(obj_prop_v(props@.last()) == ObjPropV::KeyValue(
                PropKeyV::Str(attr_key_name_v(hv[i as int].key)),
                attr_value_expr_v(hv[i as int].val),
            ));
            assert(obj_props_v(props@) == obj_props_v(prev).push(obj_prop_v(props@.last())));
            assert(rest@ =~= whole.skip(i + 1));
        }
        i += 1;
    }
    ObjLit { props }
}

/// Removes the `key` attributes; a root key lands in the state, a
/// non-root key warns.
fn pick_key(
    attrs: Vec<AttrOrSpread>,
    is_root: bool,
    st: &mut ExtractState,
    diags: &mut Diagnostics,
) -> (r: Vec<AttrOrSpread>)
    ensures
        ({
            let picked = pick_key_v(attrs_v(attrs@), is_root, state_v(*old(st), old(diags)@));
            attrs_v(r@) == picked.0 && state_v(*final(st), final(diags)@) == picked.1
        }),
{
    let ghost av = attrs_v(attrs@);
    let ghost s0 = state_v(*st, diags@);
    let mut out: Vec<AttrOrSpread> = Vec::new();
    let mut rest = attrs;
    let mut i: usize = 0;
    let n = rest.len();
    let ghost whole = rest@;
    proof {
        lemma_attrs_v(whole);
        assert(attrs_v(out@) =~= Seq::<AttrOrSpreadV>::empty());
    }
    while i < n
        invariant
            i <= n,
            n == whole.len(),
            av == attrs_v(whole),
            av.len() == n,
            rest@ =~= whole.skip(i as int),
            pick_key_acc(av, i as int, attrs_v(out@), is_root, state_v(*st, diags@))
                == pick_key_acc(av, 0, Seq::empty(), is_root, s0),
        decreases n - i,
    {
        proof {
            lemma_attrs_v(whole);
            assert(whole.skip(i as int)[0] == whole[i as int]);
            assert(whole.skip(i as int).drop_first() =~= whole.skip(i + 1));
            assert(attr_or_spread_v(whole[i as int]) == av[i as int]);
        }
        let a = rest.remove(0);
        proof {
            assert(a == whole[i as int]);
        }
        if attr_ident_is(&a, "key") {
            if is_root {
                match a {
                    AttrOrSpread::Attr(at) => {
                        st.key = at.val;
                    },
                    AttrOrSpread::Spread(_) => {
                        proof {
                            assert(false);
                        }
                    },
                }
            } else {
                diags.warn("key is not on root element of snapshot");
            }
        } else {
            let ghost prev = out@;
            out.push(a);
            proof {
                assert(out@.drop_last() =~= prev);
            }
        }
        proof {
            assert(rest@ =~= whole.skip(i + 1));
        }
        i += 1;
    }
    out
}

/// All remaining attributes as one object with the `__spread` marker.
fn build_spread_obj(attrs: Vec<AttrOrSpread>) -> (r: ObjLit)
    ensures
        obj_v(r) == spread_obj_v(attrs_v(attrs@)),
{
    let ghost av = attrs_v(attrs@);
    let mut props: Vec<ObjProp> = Vec::new();
    let mut rest = attrs;
    let mut i: usize = 0;
    let n = rest.len();
    let ghost whole = rest@;
    proof {
        lemma_attrs_v(whole);
        assert(obj_props_v(props@) =~= Seq::<ObjPropV>::empty());
    }
    while i < n
        invariant
            i <= n,
            n == whole.len(),
            av == attrs_v(whole),
            av.len() == n,
            rest@ =~= whole.skip(i as int),
            spread_props_acc(av, i as int, obj_props_v(props@)) == spread_props_acc(
                av,
                0,
                Seq::empty(),
            ),
        decreases n - i,
    {
        proof {
            lemma_attrs_v(whole);
            assert(whole.skip(i as int)[0] == whole[i as int]);
            assert(whole.skip(i as int).drop_first() =~= whole.skip(i + 1));
            assert(attr_or_spread_v(whole[i as int]) == av[i as int]);
        }
        let a = rest.remove(0);
        proof {
            assert(a == whole[i as int]);
        }
        let ghost prev = props@;
        match a {
            AttrOrSpread::Attr(at) => {
                let name = attr_key_name(at.key);
                let value = jsx_attr_value(at.val);
                props.push(ObjProp::KeyValue(PropKey::Str(name), value));
            },
            AttrOrSpread::Spread(e) => {
                props.push(ObjProp::Spread(e));
            },
        }
        proof {
            assert(props@.drop_last() =~= prev);
            assert(obj_props_v(props@) == obj_props_v(prev).push(obj_prop_v(props@.last())));
            assert(rest@ =~= whole.skip(i + 1));
        }
        i += 1;
    }
    let ghost prev = props@;
    props.push(
        ObjProp::KeyValue(
            PropKey::Ident(String::from_str("__spread")),
            JsExpr::Lit(LitKind::Bool(true)),
        ),
    );
    proof {
        assert(props@.drop_last() =~= prev);
        assert(obj_props_v(props@) == obj_props_v(prev).push(obj_prop_v(props@.last())));
    }
    ObjLit { props }
}


// ---------------------------------------------------------------------------
// Executable attribute processing.
// ---------------------------------------------------------------------------

fn transform_attr_val(val: Option<AttrVal>) -> (r: Option<AttrVal>)
    ensures
        opt_attr_val_v(r) == transform_attr_val_v(opt_attr_val_v(val)),
{
    match val {
        Option::Some(AttrVal::Lit(LitKind::Str(s))) => {
            let t = transform_jsx_attr_str(s.as_str());
            Option::Some(AttrVal::Lit(LitKind::Str(t)))
        },
        other => other,
    }
}

/// Splits decomposed style properties into static calls and the single
/// parsed-style block.
fn style_fold(
    styles: Vec<StyleProp>,
    idx: usize,
    st: &mut ExtractState,
    Ghost(d): Ghost<Seq<DiagnosticV>>,
)
    ensures
        state_v(*final(st), d) == style_fold_v(
            style_props_v(styles@),
            0,
            idx as int,
            Seq::empty(),
            Seq::empty(),
            state_v(*old(st), d),
        ),
{
    let ghost sv = style_props_v(styles@);
    let ghost s0 = state_v(*st, d);
    let mut ids: Vec<u32> = Vec::new();
    let mut vals: Vec<JsExpr> = Vec::new();
    let mut rest = styles;
    let mut i: usize = 0;
    let n = rest.len();
    let ghost whole = rest@;
    proof {
        lemma_style_props_v(whole);
        assert(crate::ast::exprs_v(vals@) =~= Seq::<JsExprV>::empty());
        assert(ids@ =~= Seq::<u32>::empty());
    }
    while i < n
        invariant
            i <= n,
            n == whole.len(),
            sv == style_props_v(whole),
            sv.len() == n,
            rest@ =~= whole.skip(i as int),
            style_fold_v(
                sv,
                i as int,
                idx as int,
                ids@,
                crate::ast::exprs_v(vals@),
                state_v(*st, d),
            ) == style_fold_v(sv, 0, idx as int, Seq::empty(), Seq::empty(), s0),
        decreases n - i,
    {
        proof {
            lemma_style_props_v(whole);
            assert(whole.skip(i as int)[0] == whole[i as int]);
            assert(whole.skip(i as int).drop_first() =~= whole.skip(i + 1));
            assert(style_prop_v(whole[i as int]) == sv[i as int]);
        }
        let sp = rest.remove(0);
        proof {
            assert(sp == whole[i as int]);
        }
        let lit = is_literal(&sp.value);
        if lit {
            st.push_stmt(Stmt::AddInlineStyle(idx, sp.id, sp.value));
        } else {
            let ghost prev_ids = ids@;
            let ghost prev_vals = vals@;
            ids.push(sp.id);
            vals.push(sp.value);
            proof {
                assert(vals@.drop_last() =~= prev_vals);
                assert(crate::ast::exprs_v(vals@) == crate::ast::exprs_v(prev_vals).push(
                    expr_v(vals@.last()),
                ));
            }
        }
        proof {
            assert(rest@ =~= whole.skip(i + 1));
        }
        i += 1;
    }
    if ids.len() > 0 {
        st.push_part(
            DynamicPart::Attr(JsExpr::Arr(vals), idx, AttrName::ParsedStyle(ids)),
        );
    }
}

/// The expression-valued `style` attribute.
fn style_attr(
    e: JsExpr,
    idx: usize,
    table: &CssPropertyTable,
    st: &mut ExtractState,
    diags: &mut Diagnostics,
)
    ensures
        state_v(*final(st), final(diags)@) == style_attr_v(
            expr_v(e),
            idx as int,
            table@,
            state_v(*old(st), old(diags)@),
        ),
{
    if is_literal(&e) {
        match get_string_inline_style_from_literal(&e, diags) {
            Option::Some(text) => {
                st.push_stmt(Stmt::SetInlineStyles(idx, LitKind::Str(text)));
            },
            Option::None => {},
        }
        return ;
    }
    match e {
        JsExpr::Object(o) => {
            let ghost ov = obj_v(o);
            let ghost pv = obj_props_v(o.props@);
            match get_inline_style_from_object(table, o, diags) {
                Result::Ok(styles) => {
                    proof {
                        crate::style::lemma_style_ids_shape(pv, 0, Seq::empty(), table@);
                        crate::style::lemma_style_zip_len(
                            pv,
                            style_ids_v(pv, 0, Seq::empty(), table@).0.unwrap(),
                            0,
                        );
                        lemma_style_props_v(styles@);
                    }
                    if styles.len() == 0 {
                        let empty_obj = ObjLit { props: Vec::new() };
                        proof {
                            assert(obj_props_v(empty_obj.props@) =~= Seq::<ObjPropV>::empty());
                            assert(pv.len() == 0);
                            assert(obj_v(empty_obj) =~= ov);
                        }
                        st.push_part(
                            DynamicPart::Attr(JsExpr::Object(empty_obj), idx, AttrName::Style),
                        );
                    } else {
                        style_fold(styles, idx, st, Ghost(diags@));
                    }
                },
                Result::Err(o2) => {
                    st.push_part(DynamicPart::Attr(JsExpr::Object(o2), idx, AttrName::Style));
                },
            }
        },
        other => {
            st.push_part(DynamicPart::Attr(other, idx, AttrName::Style));
        },
    }
}

/// One plainly named attribute: a static setter or a dynamic part.
fn process_ident_attr(
    name: String,
    val: Option<AttrVal>,
    idx: usize,
    table: &CssPropertyTable,
    st: &mut ExtractState,
    diags: &mut Diagnostics,
)
    ensures
        ({
            let o = process_ident_attr_v(
                name@,
                opt_attr_val_v(val),
                idx as int,
                table@,
                state_v(*old(st), old(diags)@),
            );
            state_v(*final(st), final(diags)@) == o.st && o.err is None
        }),
{
    let an = AttrName::classify(name);
    match an {
        AttrName::Attr(n) => {
            match val {
                Option::None => {
                    st.push_stmt(Stmt::SetAttr(idx, n, LitKind::Bool(true)));
                },
                Option::Some(AttrVal::Lit(l)) => {
                    st.push_stmt(Stmt::SetAttr(idx, n, l));
                },
                Option::Some(AttrVal::Expr(e)) => {
                    match e {
                        JsExpr::Lit(l2) => {
                            st.push_stmt(Stmt::SetAttr(idx, n, l2));
                        },
                        other => {
                            st.push_part(DynamicPart::Attr(other, idx, AttrName::Attr(n)));
                        },
                    }
                },
                Option::Some(AttrVal::EmptyExpr) => {},
            }
        },
        AttrName::Dataset(n) => {
            match val {
                Option::None => {
                    st.push_stmt(Stmt::AddDataset(idx, n, LitKind::Bool(true)));
                },
                Option::Some(AttrVal::Lit(l)) => {
                    st.push_stmt(Stmt::AddDataset(idx, n, l));
                },
                Option::Some(AttrVal::Expr(e)) => {
                    st.push_part(DynamicPart::Attr(e, idx, AttrName::Dataset(n)));
                },
                Option::Some(AttrVal::EmptyExpr) => {},
            }
        },
        AttrName::Event(t, n2) => {
            st.push_part(
                DynamicPart::Attr(jsx_attr_value(val), idx, AttrName::Event(t, n2)),
            );
        },
        AttrName::Ref => {
            st.push_part(DynamicPart::Attr(jsx_attr_value(val), idx, AttrName::Ref));
        },
        AttrName::TimingFlag => {
            let mut props: Vec<ObjProp> = Vec::new();
            props.push(
                ObjProp::KeyValue(
                    PropKey::Ident(String::from_str("__ltf")),
                    jsx_attr_value(val),
                ),
            );
            proof {
                assert(props@.drop_last() =~= Seq::<ObjProp>::empty());
                assert(obj_props_v(props@.drop_last()) =~= Seq::<ObjPropV>::empty());
                assert(obj_props_v(props@) == obj_props_v(props@.drop_last()).push(
                    obj_prop_v(props@.last()),
                ));
                assert(obj_props_v(props@) =~= seq![obj_prop_v(props@.last())]);
            }
            st.push_part(
                DynamicPart::Attr(
                    JsExpr::Object(ObjLit { props }),
                    idx,
                    AttrName::TimingFlag,
                ),
            );
        },
        AttrName::Style => {
            match val {
                Option::None => {},
                Option::Some(AttrVal::Lit(l)) => {
                    st.push_stmt(Stmt::SetInlineStyles(idx, l));
                },
                Option::Some(AttrVal::Expr(e)) => {
                    style_attr(e, idx, table, st, diags);
                },
                Option::Some(AttrVal::EmptyExpr) => {},
            }
        },
        AttrName::Class => {
            match val {
                Option::None => {},
                Option::Some(AttrVal::Lit(l)) => {
                    st.push_stmt(Stmt::SetClasses(idx, l));
                },
                Option::Some(AttrVal::Expr(e)) => {
                    match e {
                        JsExpr::Lit(l2) => {
                            st.push_stmt(Stmt::SetClasses(idx, l2));
                        },
                        other => {
                            st.push_part(DynamicPart::Attr(other, idx, AttrName::Class));
                        },
                    }
                },
                Option::Some(AttrVal::EmptyExpr) => {},
            }
        },
        AttrName::ID => {
            match val {
                Option::None => {},
                Option::Some(AttrVal::Lit(l)) => {
                    st.push_stmt(Stmt::SetId(idx, l));
                },
                Option::Some(AttrVal::Expr(e)) => {
                    st.push_part(DynamicPart::Attr(e, idx, AttrName::ID));
                },
                Option::Some(AttrVal::EmptyExpr) => {},
            }
        },
        _ => {},
    }
}

/// One attribute of an element without spread.
fn process_attr(
    a: AttrOrSpread,
    idx: usize,
    table: &CssPropertyTable,
    st: &mut ExtractState,
    diags: &mut Diagnostics,
) -> (r: Result<(), CompileError>)
    ensures
        ({
            let o = process_attr_v(
                attr_or_spread_v(a),
                idx as int,
                table@,
                state_v(*old(st), old(diags)@),
            );
            &&& state_v(*final(st), final(diags)@) == o.st
            &&& (r is Ok) == (o.err is None)
            &&& (r matches Result::Err(e) ==> o.err == Option::Some(err_v(e)))
        }),
{
    match a {
        AttrOrSpread::Spread(_) => Result::Ok(()),
        AttrOrSpread::Attr(at) => {
            let JsxAttr { key, val } = at;
            let val = transform_attr_val(val);
            match key {
                AttrKey::Ident(name) => {
                    process_ident_attr(name, val, idx, table, st, diags);
                    Result::Ok(())
                },
                AttrKey::Ns(ns, name) => {
                    match AttrName::from_ns(ns, name) {
                        Result::Ok(an) => {
                            st.push_part(
                                DynamicPart::Attr(jsx_attr_value(val), idx, an),
                            );
                            Result::Ok(())
                        },
                        Result::Err(e) => Result::Err(e),
                    }
                },
            }
        },
    }
}

/// The attribute fold, stopping at the first hard error.
fn extract_attrs(
    attrs: Vec<AttrOrSpread>,
    idx: usize,
    table: &CssPropertyTable,
    st: &mut ExtractState,
    diags: &mut Diagnostics,
) -> (r: Result<(), CompileError>)
    ensures
        ({
            let o = attrs_fold_v(
                attrs_v(attrs@),
                0,
                idx as int,
                table@,
                state_v(*old(st), old(diags)@),
            );
            &&& state_v(*final(st), final(diags)@) == o.st
            &&& (r is Ok) == (o.err is None)
            &&& (r matches Result::Err(e) ==> o.err == Option::Some(err_v(e)))
        }),
{
    let ghost av = attrs_v(attrs@);
    let ghost s0 = state_v(*st, diags@);
    let mut rest = attrs;
    let mut i: usize = 0;
    let n = rest.len();
    let ghost whole = rest@;
    proof {
        lemma_attrs_v(whole);
    }
    while i < n
        invariant
            i <= n,
            n == whole.len(),
            whole == attrs@,
            av == attrs_v(whole),
            av.len() == n,
            s0 == state_v(*old(st), old(diags)@),
            rest@ =~= whole.skip(i as int),
            attrs_fold_v(av, i as int, idx as int, table@, state_v(*st, diags@)) == attrs_fold_v(
                av,
                0,
                idx as int,
                table@,
                s0,
            ),
        decreases n - i,
    {
        let ghost s_iter = state_v(*st, diags@);
        proof {
            lemma_attrs_v(whole);
            assert(whole.skip(i as int)[0] == whole[i as int]);
            assert(whole.skip(i as int).drop_first() =~= whole.skip(i + 1));
            assert(attr_or_spread_v(whole[i as int]) == av[i as int]);
        }
        let a = rest.remove(0);
        proof {
            assert(a == whole[i as int]);
        }
        let step = process_attr(a, idx, table, st, diags);
        proof {
            let rr = process_attr_v(av[i as int], idx as int, table@, s_iter);
            assert(state_v(*st, diags@) == rr.st);
            if rr.err is Some {
                assert(attrs_fold_v(av, i as int, idx as int, table@, s_iter) == rr);
            } else {
                assert(attrs_fold_v(av, i as int, idx as int, table@, s_iter) == attrs_fold_v(
                    av,
                    i + 1,
                    idx as int,
                    table@,
                    rr.st,
                ));
            }
        }
        match step {
            Result::Ok(()) => {},
            Result::Err(e) => {
                return Result::Err(e);
            },
        }
        proof {
            assert(rest@ =~= whole.skip(i + 1));
        }
        i += 1;
    }
    Result::Ok(())
}


// ---------------------------------------------------------------------------
// The executable walk.
// ---------------------------------------------------------------------------

/// Extracts one element of the marked tree into the state.
pub fn extract_element(
    el: JsxElem,
    parent: Option<usize>,
    cnt: usize,
    table: &CssPropertyTable,
    st: &mut ExtractState,
    diags: &mut Diagnostics,
) -> (r: Result<(), CompileError>)
    ensures
        ({
            let o = extract_elem_v(
                elem_v(el),
                opt_idx_v(parent),
                cnt as int,
                table@,
                state_v(*old(st), old(diags)@),
            );
            &&& state_v(*final(st), final(diags)@) == o.st
            &&& (r is Ok) == (o.err is None)
            &&& (r matches Result::Err(e) ==> o.err == Option::Some(err_v(e)))
        }),
    decreases el, 3int,
{
    if jsx_is_internal_slot(&el) && cnt > 1 {
        let payload = jsx_unwrap_internal_slot(el);
        let idx0 = st.element_index;
        st.push_part(DynamicPart::Slot(payload, idx0));
        simple_wrapper(parent, st, Ghost(diags@));
        return Result::Ok(());
    }
    if jsx_is_internal_slot(&el) {
        let inner = jsx_unwrap_internal_slot(el);
        extract_core(inner, parent, cnt, table, st, diags)
    } else {
        extract_core(el, parent, cnt, table, st, diags)
    }
}

/// A custom component, or a concrete element with its attributes and
/// children.
fn extract_core(
    el: JsxElem,
    parent: Option<usize>,
    cnt: usize,
    table: &CssPropertyTable,
    st: &mut ExtractState,
    diags: &mut Diagnostics,
) -> (r: Result<(), CompileError>)
    ensures
        ({
            let o = extract_core_v(
                elem_v(el),
                opt_idx_v(parent),
                cnt as int,
                table@,
                state_v(*old(st), old(diags)@),
            );
            &&& state_v(*final(st), final(diags)@) == o.st
            &&& (r is Ok) == (o.err is None)
            &&& (r matches Result::Err(e) ==> o.err == Option::Some(err_v(e)))
        }),
    decreases el, 2int,
{
    let ghost elv = elem_v(el);
    let ghost g = state_v(*st, diags@);
    if jsx_is_custom(&el) {
        match parent {
            Option::Some(_) => {
                let idx0 = st.element_index;
                st.push_part(DynamicPart::Children(JsExpr::Jsx(el), idx0));
                simple_wrapper(parent, st, Ghost(diags@));
            },
            Option::None => {},
        }
        return Result::Ok(());
    }
    if crate::jsx::jsx_name_has_namespace(&el) {
        diags.error("JSX Namespace is disabled");
    }
    let ghost g0 = (if crate::jsx::tag_has_namespace_v(elv.name) {
        st_error(g, "JSX Namespace is disabled"@)
    } else {
        g
    });
    proof {
        assert(state_v(*st, diags@) == g0);
    }
    if !st.page_declared {
        st.push_stmt(Stmt::DeclarePageId);
        st.page_declared = true;
    }
    let ghost g1 = (if !g0.page_declared {
        ExtractStateV { page_declared: true, ..st_stmt(g0, StmtV::DeclarePageId) }
    } else {
        g0
    });
    proof {
        assert(state_v(*st, diags@) == g1);
    }
    let idx = st.element_index;
    let is_list = jsx_is_list(&el);
    let is_li = jsx_is_list_item(&el);
    let full_dyn_children = jsx_is_children_full_dynamic(&el);
    let JsxElem { name, attrs, children } = el;
    let kind: CreateKind = match name {
        ElemName::Tag(t) => {
            if str_eq(&t, "view") {
                CreateKind::View
            } else if str_eq(&t, "scroll-view") {
                CreateKind::ScrollView
            } else if str_eq(&t, "x-scroll-view") {
                CreateKind::XScrollView
            } else if str_eq(&t, "image") {
                CreateKind::Image
            } else if str_eq(&t, "text") {
                CreateKind::Text
            } else if str_eq(&t, "wrapper") {
                CreateKind::Wrapper
            } else if str_eq(&t, "list") {
                CreateKind::List
            } else {
                CreateKind::Named(t)
            }
        },
        ElemName::Component(_) => CreateKind::View,
    };
    proof {
        assert(create_kind_v(kind) == (match elv.name {
            ElemNameV::Tag(t) => kind_of_tag_v(t),
            ElemNameV::Component(_) => CreateKindV::View,
        }));
    }
    let is_list_create = match &kind {
        CreateKind::List => true,
        _ => false,
    };
    let ghost kv = create_kind_v(kind);
    st.push_stmt(Stmt::Create(idx, kind));
    st.bump();
    if is_list_create {
        st.uses_instance = true;
    }
    let ghost g2 = (ExtractStateV {
        uses_instance: g1.uses_instance || (kv is List),
        ..st_bump(st_stmt(g1, StmtV::Create(idx as int, kv)))
    });
    proof {
        assert(state_v(*st, diags@) == g2);
    }
    let attrs1 = apply_flatten(attrs);
    let ghost a1 = apply_flatten_v(elv.attrs);
    proof {
        assert(attrs_v(attrs1@) == a1);
    }
    let has_spread = scan_any_spread(&attrs1);
    let li = is_li && !has_spread;
    let (attrs2, hoisted) = if li {
        li_split(attrs1)
    } else {
        (attrs1, Vec::new())
    };
    let ghost split = (if is_list_item_v(elv) && !any_spread_v(a1) {
        li_split_v(a1)
    } else {
        (a1, Seq::<JsxAttrV>::empty())
    });
    proof {
        if !li {
            assert(jsx_attrs_v(Seq::<JsxAttr>::empty()) =~= Seq::<JsxAttrV>::empty());
        }
        assert(attrs_v(attrs2@) == split.0);
        assert(jsx_attrs_v(hoisted@) == split.1);
    }
    if li && hoisted.len() > 0 {
        proof {
            lemma_jsx_attrs_v(hoisted@);
        }
        let obj = li_obj(hoisted);
        st.push_part(
            DynamicPart::Attr(
                JsExpr::Object(obj),
                idx,
                AttrName::ListItemPlatformInfo,
            ),
        );
    } else {
        proof {
            lemma_jsx_attrs_v(hoisted@);
        }
    }
    let ghost g3 = (if (is_list_item_v(elv) && !any_spread_v(a1)) && split.1.len() > 0 {
        st_part(
            g2,
            DynamicPartV::Attr(
                JsExprV::Object(ObjLitV { props: li_props_v(split.1) }),
                idx as int,
                AttrNameV::ListItemPlatformInfo,
            ),
        )
    } else {
        g2
    });
    proof {
        assert(state_v(*st, diags@) == g3);
    }
    let is_root = match parent {
        Option::Some(_) => false,
        Option::None => true,
    };
    let attrs3 = pick_key(attrs2, is_root, st, diags);
    let ghost picked = pick_key_v(split.0, opt_idx_v(parent) is None, g3);
    proof {
        assert(attrs_v(attrs3@) == picked.0);
        assert(state_v(*st, diags@) == picked.1);
    }
    if has_spread {
        let obj = build_spread_obj(attrs3);
        st.push_part(DynamicPart::Spread(obj, idx));
    } else {
        let step = extract_attrs(attrs3, idx, table, st, diags);
        match step {
            Result::Ok(()) => {},
            Result::Err(e) => {
                proof {
                    let after = attrs_fold_v(picked.0, 0, idx as int, table@, picked.1);
                    assert(state_v(*st, diags@) == after.st);
                }
                return Result::Err(e);
            },
        }
    }
    let ghost after_attrs = (if any_spread_v(a1) {
        ok_v(st_part(picked.1, DynamicPartV::Spread(spread_obj_v(picked.0), idx as int)))
    } else {
        attrs_fold_v(picked.0, 0, idx as int, table@, picked.1)
    });
    proof {
        assert(after_attrs.err is None);
        assert(state_v(*st, diags@) == after_attrs.st);
    }
    match parent {
        Option::Some(p) => {
            st.push_stmt(Stmt::Append(p, idx));
        },
        Option::None => {},
    }
    let ghost g6 = (match opt_idx_v(parent) {
        Option::Some(p) => st_stmt(after_attrs.st, StmtV::Append(p, idx as int)),
        Option::None => after_attrs.st,
    });
    proof {
        assert(state_v(*st, diags@) == g6);
    }
    if !(is_list || full_dyn_children) {
        let step = extract_children(children, Option::Some(idx), cnt, table, st, diags);
        match step {
            Result::Ok(()) => Result::Ok(()),
            Result::Err(e) => Result::Err(e),
        }
    } else {
        let ce = jsx_children_to_expr(children);
        if is_list {
            st.push_part(DynamicPart::ListChildren(ce, idx));
        } else {
            st.push_part(DynamicPart::Children(ce, idx));
        }
        Result::Ok(())
    }
}

/// One child of a statically built element.
fn extract_child(
    c: JsxChild,
    parent: Option<usize>,
    cnt: usize,
    table: &CssPropertyTable,
    st: &mut ExtractState,
    diags: &mut Diagnostics,
) -> (r: Result<(), CompileError>)
    ensures
        ({
            let o = extract_child_v(
                child_v(c),
                opt_idx_v(parent),
                cnt as int,
                table@,
                state_v(*old(st), old(diags)@),
            );
            &&& state_v(*final(st), final(diags)@) == o.st
            &&& (r is Ok) == (o.err is None)
            &&& (r matches Result::Err(e) ==> o.err == Option::Some(err_v(e)))
        }),
    decreases c, 0int,
{
    match c {
        JsxChild::Elem(e) => extract_element(e, parent, cnt, table, st, diags),
        JsxChild::Text(t) => {
            let norm = jsx_text_to_str(t.as_str());
            if norm.as_str().unicode_len() > 0 {
                let idx = st.element_index;
                st.push_stmt(Stmt::Create(idx, CreateKind::RawText(norm)));
                st.bump();
                match parent {
                    Option::Some(p) => {
                        st.push_stmt(Stmt::Append(p, idx));
                    },
                    Option::None => {},
                }
            }
            Result::Ok(())
        },
        JsxChild::ExprChild(e) => {
            let idx0 = st.element_index;
            st.push_part(DynamicPart::Children(e, idx0));
            simple_wrapper(parent, st, Ghost(diags@));
            Result::Ok(())
        },
        JsxChild::EmptyExprChild => Result::Ok(()),
        JsxChild::Frag(inner) => extract_children(inner, parent, cnt, table, st, diags),
    }
}

/// The fold over a child list, stopping at the first hard error.
fn extract_children(
    children: Vec<JsxChild>,
    parent: Option<usize>,
    cnt: usize,
    table: &CssPropertyTable,
    st: &mut ExtractState,
    diags: &mut Diagnostics,
) -> (r: Result<(), CompileError>)
    ensures
        ({
            let o = children_fold_v(
                children_v(children@),
                0,
                opt_idx_v(parent),
                cnt as int,
                table@,
                state_v(*old(st), old(diags)@),
            );
            &&& state_v(*final(st), final(diags)@) == o.st
            &&& (r is Ok) == (o.err is None)
            &&& (r matches Result::Err(e) ==> o.err == Option::Some(err_v(e)))
        }),
    decreases children@, 1int,
{
    let ghost cv = children_v(children@);
    let ghost s0 = state_v(*st, diags@);
    let mut rest = children;
    let mut i: usize = 0;
    let n = rest.len();
    let ghost whole = rest@;
    proof {
        lemma_children_v(whole);
    }
    while i < n
        invariant
            i <= n,
            n == whole.len(),
            whole == children@,
            cv == children_v(whole),
            cv.len() == n,
            s0 == state_v(*old(st), old(diags)@),
            rest@ =~= whole.skip(i as int),
            children_fold_v(cv, i as int, opt_idx_v(parent), cnt as int, table@, state_v(
                *st,
                diags@,
            )) == children_fold_v(cv, 0, opt_idx_v(parent), cnt as int, table@, s0),
        decreases n - i,
    {
        let ghost s_iter = state_v(*st, diags@);
        proof {
            lemma_children_v(whole);
            assert(whole.skip(i as int)[0] == whole[i as int]);
            assert(whole.skip(i as int).drop_first() =~= whole.skip(i + 1));
            assert(child_v(whole[i as int]) == cv[i as int]);
        }
        let c = rest.remove(0);
        proof {
            assert(c == whole[i as int]);
        }
        let step = extract_child(c, parent, cnt, table, st, diags);
        proof {
            let rr = extract_child_v(
                cv[i as int],
                opt_idx_v(parent),
                cnt as int,
                table@,
                s_iter,
            );
            assert(state_v(*st, diags@) == rr.st);
            if rr.err is Some {
                assert(children_fold_v(cv, i as int, opt_idx_v(parent), cnt as int, table@, s_iter)
                    == rr);
            } else {
                assert(children_fold_v(cv, i as int, opt_idx_v(parent), cnt as int, table@, s_iter)
                    == children_fold_v(cv, i + 1, opt_idx_v(parent), cnt as int, table@, rr.st));
            }
        }
        match step {
            Result::Ok(()) => {},
            Result::Err(e) => {
                return Result::Err(e);
            },
        }
        proof {
            assert(rest@ =~= whole.skip(i + 1));
        }
        i += 1;
    }
    Result::Ok(())
}

} // verus!
