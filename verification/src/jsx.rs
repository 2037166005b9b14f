//! Shared readings of the JSX tree: which elements are custom components,
//! lists or slots; whether children leave no static anchor; and the
//! collapse of a child list into one expression.

use vstd::prelude::*;

use crate::ast::{
    attr_or_spread_v, attrs_v, child_v, children_v, elem_v, expr_v, exprs_v, lemma_attrs_v,
    lemma_children_v, lemma_exprs_v, opt_attr_val_v, AttrKey, AttrKeyV, AttrOrSpread,
    AttrOrSpreadV, AttrVal, AttrValV, ElemName, ElemNameV, JsExpr, JsExprV, JsxChild, JsxChildV,
    JsxElem, JsxElemV, LitKind, LitKindV,
};
use crate::strutil::str_eq;
use crate::text::{jsx_text_to_str, text_norm_v};

verus! {

// ---------------------------------------------------------------------------
// Element predicates.
// ---------------------------------------------------------------------------

/// A custom component: a component reference, or the reserved `page` tag.
pub open spec fn is_custom_v(el: JsxElemV) -> bool {
    match el.name {
        ElemNameV::Tag(t) => t == "page"@,
        ElemNameV::Component(_) => true,
    }
}

pub open spec fn is_tag_v(el: JsxElemV, tag: Seq<char>) -> bool {
    match el.name {
        ElemNameV::Tag(t) => t == tag,
        ElemNameV::Component(_) => false,
    }
}

pub open spec fn is_list_v(el: JsxElemV) -> bool {
    is_tag_v(el, "list"@)
}

pub open spec fn is_list_item_v(el: JsxElemV) -> bool {
    is_tag_v(el, "list-item"@)
}

pub open spec fn is_internal_slot_v(el: JsxElemV) -> bool {
    is_tag_v(el, "internal-slot"@)
}

pub fn jsx_is_custom(el: &JsxElem) -> (r: bool)
    ensures
        r == is_custom_v(elem_v(*el)),
{
    match &el.name {
        ElemName::Tag(t) => str_eq(t, "page"),
        ElemName::Component(_) => true,
    }
}

pub fn jsx_is_tag(el: &JsxElem, tag: &str) -> (r: bool)
    ensures
        r == is_tag_v(elem_v(*el), tag@),
{
    match &el.name {
        ElemName::Tag(t) => str_eq(t, tag),
        ElemName::Component(_) => false,
    }
}

pub fn jsx_is_list(el: &JsxElem) -> (r: bool)
    ensures
        r == is_list_v(elem_v(*el)),
{
    jsx_is_tag(el, "list")
}

pub fn jsx_is_list_item(el: &JsxElem) -> (r: bool)
    ensures
        r == is_list_item_v(elem_v(*el)),
{
    jsx_is_tag(el, "list-item")
}

pub fn jsx_is_internal_slot(el: &JsxElem) -> (r: bool)
    ensures
        r == is_internal_slot_v(elem_v(*el)),
{
    jsx_is_tag(el, "internal-slot")
}

/// Whether the element is named by a namespaced tag (`ns:name`). JSX
/// namespaces are disabled; such an element still compiles by its full
/// tag text, with an error diagnostic.
pub open spec fn has_colon_v(t: Seq<char>) -> bool {
    exists|i: int| 0 <= i < t.len() && t[i] == ':'
}

pub open spec fn tag_has_namespace_v(n: ElemNameV) -> bool {
    match n {
        ElemNameV::Tag(t) => has_colon_v(t),
        ElemNameV::Component(_) => false,
    }
}

fn str_contains_colon(t: &String) -> (r: bool)
    ensures
        r == has_colon_v(t@),
{
    let n = t.as_str().unicode_len();
    let mut i: usize = 0;
    while i < n
        invariant
            i <= n,
            n == t@.len(),
            forall|j: int| 0 <= j < i ==> t@[j] != ':',
        decreases n - i,
    {
        if t.as_str().get_char(i) == ':' {
            proof {
                assert(0 <= (i as int) < t@.len() && t@[i as int] == ':');
                assert(has_colon_v(t@));
            }
            return true;
        }
        i += 1;
    }
    proof {
        assert(forall|j: int| 0 <= j < t@.len() ==> t@[j] != ':');
        assert(!has_colon_v(t@));
    }
    false
}

pub fn jsx_name_has_namespace(el: &JsxElem) -> (r: bool)
    ensures
        r == tag_has_namespace_v(elem_v(*el).name),
{
    match &el.name {
        ElemName::Tag(t) => {
            let r = str_contains_colon(t);
            proof {
                assert(elem_v(*el).name == ElemNameV::Tag(t@));
            }
            r
        },
        ElemName::Component(_) => false,
    }
}

// ---------------------------------------------------------------------------
// Keys.
// ---------------------------------------------------------------------------

/// Whether one attribute is `key` with an expression value.
pub open spec fn attr_is_dynamic_key_v(a: AttrOrSpreadV) -> bool {
    match a {
        AttrOrSpreadV::Attr(at) => at.key == AttrKeyV::Ident("key"@) && (at.val matches Option::Some(
            AttrValV::Expr(_),
        )),
        AttrOrSpreadV::Spread(_) => false,
    }
}

pub open spec fn any_dynamic_key_v(attrs: Seq<AttrOrSpreadV>) -> bool
    decreases attrs,
{
    if attrs.len() == 0 {
        false
    } else {
        attr_is_dynamic_key_v(attrs[0]) || any_dynamic_key_v(attrs.drop_first())
    }
}

pub open spec fn has_dynamic_key_v(el: JsxElemV) -> bool {
    any_dynamic_key_v(el.attrs)
}

pub fn jsx_has_dynamic_key(el: &JsxElem) -> (r: bool)
    ensures
        r == has_dynamic_key_v(elem_v(*el)),
{
    proof {
        lemma_attrs_v(el.attrs@);
    }
    let ghost av = attrs_v(el.attrs@);
    let n = el.attrs.len();
    let mut i: usize = 0;
    proof {
        assert(av.skip(0) =~= av);
    }
    while i < n
        invariant
            i <= n,
            n == el.attrs@.len(),
            av == attrs_v(el.attrs@),
            av.len() == n,
            forall|j: int| 0 <= j < n ==> av[j] == attr_or_spread_v(#[trigger] el.attrs@[j]),
            any_dynamic_key_v(av) == any_dynamic_key_v(av.skip(i as int)),
        decreases n - i,
    {
        let hit: bool = match &el.attrs[i] {
            AttrOrSpread::Attr(at) => {
                let is_key = match &at.key {
                    AttrKey::Ident(name) => str_eq(name, "key"),
                    AttrKey::Ns(_, _) => false,
                };
                if is_key {
                    match &at.val {
                        Option::Some(AttrVal::Expr(_)) => true,
                        _ => false,
                    }
                } else {
                    false
                }
            },
            AttrOrSpread::Spread(_) => false,
        };
        proof {
            assert(av.skip(i as int)[0] == av[i as int]);
            assert(av.skip(i as int).drop_first() =~= av.skip(i + 1));
        }
        if hit {
            return true;
        }
        i += 1;
    }
    proof {
        assert(av.skip(n as int) =~= Seq::<AttrOrSpreadV>::empty());
    }
    false
}

// ---------------------------------------------------------------------------
// Fully dynamic children: no static anchor remains.
// ---------------------------------------------------------------------------

/// Whether a child cannot anchor a static run: empty text, a custom
/// component, or any expression container. A fragment or nonempty text is
/// an anchor.
pub open spec fn child_is_dynamic_ok_v(c: JsxChildV) -> bool {
    match c {
        JsxChildV::Text(t) => text_norm_v(t).len() == 0,
        JsxChildV::Elem(e) => is_custom_v(e),
        JsxChildV::ExprChild(_) => true,
        JsxChildV::EmptyExprChild => true,
        JsxChildV::Frag(_) => false,
    }
}

pub open spec fn all_children_dynamic_v(cs: Seq<JsxChildV>) -> bool
    decreases cs,
{
    if cs.len() == 0 {
        true
    } else {
        child_is_dynamic_ok_v(cs[0]) && all_children_dynamic_v(cs.drop_first())
    }
}

pub open spec fn children_full_dynamic_v(el: JsxElemV) -> bool {
    el.children.len() > 0 && all_children_dynamic_v(el.children)
}

pub fn jsx_is_children_full_dynamic(el: &JsxElem) -> (r: bool)
    ensures
        r == children_full_dynamic_v(elem_v(*el)),
{
    proof {
        lemma_children_v(el.children@);
    }
    let ghost cv = children_v(el.children@);
    let n = el.children.len();
    if n == 0 {
        return false;
    }
    let mut i: usize = 0;
    proof {
        assert(cv.skip(0) =~= cv);
    }
    while i < n
        invariant
            i <= n,
            n == el.children@.len(),
            cv == children_v(el.children@),
            cv.len() == n,
            forall|j: int| 0 <= j < n ==> cv[j] == child_v(#[trigger] el.children@[j]),
            all_children_dynamic_v(cv) == all_children_dynamic_v(cv.skip(i as int)),
        decreases n - i,
    {
        let ok: bool = match &el.children[i] {
            JsxChild::Text(t) => {
                let norm = jsx_text_to_str(t.as_str());
                norm.as_str().unicode_len() == 0
            },
            JsxChild::Elem(e) => jsx_is_custom(e),
            JsxChild::ExprChild(_) => true,
            JsxChild::EmptyExprChild => true,
            JsxChild::Frag(_) => false,
        };
        proof {
            assert(cv.skip(i as int)[0] == cv[i as int]);
            assert(cv.skip(i as int).drop_first() =~= cv.skip(i + 1));
        }
        if !ok {
            return false;
        }
        i += 1;
    }
    proof {
        assert(cv.skip(n as int) =~= Seq::<JsxChildV>::empty());
    }
    true
}

// ---------------------------------------------------------------------------
// Attribute values as expressions, and collapsing children into one
// expression.
// ---------------------------------------------------------------------------

/// The expression an attribute value stands for: a bare attribute is
/// `true`, an empty container is `null`.
pub open spec fn attr_value_expr_v(val: Option<AttrValV>) -> JsExprV {
    match val {
        Option::None => JsExprV::Lit(LitKindV::Bool(true)),
        Option::Some(AttrValV::Lit(l)) => JsExprV::Lit(l),
        Option::Some(AttrValV::Expr(e)) => e,
        Option::Some(AttrValV::EmptyExpr) => JsExprV::Lit(LitKindV::Null),
    }
}

pub fn jsx_attr_value(val: Option<AttrVal>) -> (r: JsExpr)
    ensures
        expr_v(r) == attr_value_expr_v(opt_attr_val_v(val)),
{
    match val {
        Option::None => JsExpr::Lit(LitKind::Bool(true)),
        Option::Some(AttrVal::Lit(l)) => JsExpr::Lit(l),
        Option::Some(AttrVal::Expr(e)) => e,
        Option::Some(AttrVal::EmptyExpr) => JsExpr::Lit(LitKind::Null),
    }
}

/// The expression pieces of a child list: normalized nonempty text as
/// string literals, container expressions, elements and fragments
/// verbatim.
pub open spec fn child_head_v(c: JsxChildV) -> Seq<JsExprV> {
    match c {
        JsxChildV::Text(t) => if text_norm_v(t).len() == 0 {
            Seq::<JsExprV>::empty()
        } else {
            seq![JsExprV::Lit(LitKindV::Str(text_norm_v(t)))]
        },
        JsxChildV::ExprChild(e) => seq![e],
        JsxChildV::EmptyExprChild => Seq::<JsExprV>::empty(),
        JsxChildV::Elem(el) => seq![JsExprV::Jsx(el)],
        JsxChildV::Frag(inner) => seq![JsExprV::JsxFrag(inner)],
    }
}

pub open spec fn child_exprs_v(cs: Seq<JsxChildV>) -> Seq<JsExprV>
    decreases cs,
{
    if cs.len() == 0 {
        Seq::empty()
    } else {
        child_head_v(cs[0]) + child_exprs_v(cs.drop_first())
    }
}

/// One expression for a whole child list: the only piece, or an array of
/// the pieces.
pub open spec fn children_to_expr_v(cs: Seq<JsxChildV>) -> JsExprV {
    if child_exprs_v(cs).len() == 1 {
        child_exprs_v(cs)[0]
    } else {
        JsExprV::Arr(child_exprs_v(cs))
    }
}

pub fn jsx_children_to_expr(children: Vec<JsxChild>) -> (r: JsExpr)
    ensures
        expr_v(r) == children_to_expr_v(children_v(children@)),
{
    proof {
        lemma_children_v(children@);
    }
    let ghost cv = children_v(children@);
    let mut pieces: Vec<JsExpr> = Vec::new();
    let mut rest = children;
    let mut i: usize = 0;
    let n = rest.len();
    proof {
        lemma_exprs_v(pieces@);
        assert(exprs_v(pieces@) =~= Seq::<JsExprV>::empty());
        assert(cv.skip(0) =~= cv);
        assert(exprs_v(pieces@) + child_exprs_v(cv.skip(0)) =~= child_exprs_v(cv));
    }
    while i < n
        invariant
            i <= n,
            n == cv.len(),
            rest@.len() == n - i,
            forall|j: int| 0 <= j < n - i ==> child_v(#[trigger] rest@[j]) == cv[j + i],
            exprs_v(pieces@) + child_exprs_v(cv.skip(i as int)) == child_exprs_v(cv),
        decreases n - i,
    {
        let ghost prev_pieces = pieces@;
        let c = rest.remove(0);
        proof {
            assert(child_v(c) == cv[i as int]);
            assert(cv.skip(i as int)[0] == cv[i as int]);
            assert(cv.skip(i as int).drop_first() =~= cv.skip(i + 1));
        }
        match c {
            JsxChild::Text(t) => {
                let norm = jsx_text_to_str(t.as_str());
                if norm.as_str().unicode_len() > 0 {
                    proof {
                        assert(cv[i as int] == JsxChildV::Text(t@));
                        assert(norm@ == text_norm_v(t@));
                        assert(child_head_v(cv[i as int]) == seq![
                            JsExprV::Lit(LitKindV::Str(norm@)),
                        ]);
                    }
                    pieces.push(JsExpr::Lit(LitKind::Str(norm)));
                    proof {
                        assert(pieces@.drop_last() =~= prev_pieces);
                        assert(expr_v(pieces@.last()) == JsExprV::Lit(LitKindV::Str(norm@)));
                        assert(exprs_v(pieces@) == exprs_v(pieces@.drop_last()).push(
                            expr_v(pieces@.last()),
                        ));
                        assert(exprs_v(pieces@) =~~= exprs_v(prev_pieces) + child_head_v(
                            cv[i as int],
                        ));
                    }
                } else {
                    proof {
                        assert(child_head_v(cv[i as int]) =~= Seq::<JsExprV>::empty());
                    }
                }
            },
            JsxChild::ExprChild(e) => {
                pieces.push(e);
                proof {
                    assert(pieces@.drop_last() =~= prev_pieces);
                    assert(exprs_v(pieces@) =~~= exprs_v(prev_pieces) + child_head_v(
                        cv[i as int],
                    ));
                }
            },
            JsxChild::EmptyExprChild => {},
            JsxChild::Elem(el) => {
                pieces.push(JsExpr::Jsx(el));
                proof {
                    assert(pieces@.drop_last() =~= prev_pieces);
                    assert(exprs_v(pieces@) =~~= exprs_v(prev_pieces) + child_head_v(
                        cv[i as int],
                    ));
                }
            },
            JsxChild::Frag(inner) => {
                proof {
                    assert(cv[i as int] == JsxChildV::Frag(children_v(inner@)));
                }
                pieces.push(JsExpr::JsxFrag(inner));
                proof {
                    assert(pieces@.drop_last() =~= prev_pieces);
                    assert(exprs_v(pieces@) == exprs_v(pieces@.drop_last()).push(
                        expr_v(pieces@.last()),
                    ));
                    assert(exprs_v(pieces@) =~~= exprs_v(prev_pieces) + child_head_v(
                        cv[i as int],
                    ));
                }
            },
        }
        proof {
            assert(child_exprs_v(cv.skip(i as int)) == child_head_v(cv[i as int])
                + child_exprs_v(cv.skip(i + 1)));
            assert(exprs_v(pieces@) + child_exprs_v(cv.skip(i + 1)) =~= exprs_v(
                prev_pieces,
            ) + child_exprs_v(cv.skip(i as int)));
            assert forall|j: int|
                0 <= j < n - (i + 1) implies child_v(#[trigger] rest@[j]) == cv[j + i + 1] by {
                assert(rest@[j] == rest_helper(rest@, j));
            }
        }
        i += 1;
    }
    proof {
        assert(cv.skip(n as int) =~= Seq::<JsxChildV>::empty());
        assert(exprs_v(pieces@) == child_exprs_v(cv));
        lemma_exprs_v(pieces@);
    }
    if pieces.len() == 1 {
        let mut pieces = pieces;
        let only = pieces.remove(0);
        only
    } else {
        JsExpr::Arr(pieces)
    }
}

spec fn rest_helper(rest: Seq<JsxChild>, j: int) -> JsxChild {
    rest[j]
}

// ---------------------------------------------------------------------------
// The synthetic wrapper and internal-slot elements.
// ---------------------------------------------------------------------------

/// A fresh, empty `<wrapper/>` element.
pub fn wrapper_elem() -> (r: JsxElem)
    ensures
        elem_v(r) == wrapper_elem_v(),
{
    let r = JsxElem {
        name: ElemName::Tag(String::from_str("wrapper")),
        attrs: Vec::new(),
        children: Vec::new(),
    };
    proof {
        assert(attrs_v(r.attrs@) =~= Seq::<AttrOrSpreadV>::empty());
        assert(children_v(r.children@) =~= Seq::<JsxChildV>::empty());
    }
    r
}

pub open spec fn wrapper_elem_v() -> JsxElemV {
    JsxElemV { name: ElemNameV::Tag("wrapper"@), attrs: Seq::empty(), children: Seq::empty() }
}

/// Wraps an element in an `<internal-slot>` marker element.
pub fn internal_slot_wrap(el: JsxElem) -> (r: JsxElem)
    ensures
        elem_v(r) == internal_slot_wrap_v(elem_v(el)),
{
    let mut children: Vec<JsxChild> = Vec::new();
    children.push(JsxChild::Elem(el));
    let r = JsxElem {
        name: ElemName::Tag(String::from_str("internal-slot")),
        attrs: Vec::new(),
        children,
    };
    proof {
        assert(attrs_v(r.attrs@) =~= Seq::<AttrOrSpreadV>::empty());
        assert(r.children@.drop_last() =~= Seq::<JsxChild>::empty());
        assert(children_v(r.children@) =~= children_v(r.children@.drop_last()).push(
            child_v(r.children@.last()),
        ));
        assert(children_v(Seq::<JsxChild>::empty()) =~= Seq::<JsxChildV>::empty());
    }
    r
}

pub open spec fn internal_slot_wrap_v(el: JsxElemV) -> JsxElemV {
    JsxElemV {
        name: ElemNameV::Tag("internal-slot"@),
        attrs: Seq::empty(),
        children: seq![JsxChildV::Elem(el)],
    }
}

/// The payload of an `<internal-slot>` marker: its single element child.
/// Anything of another shape comes back unchanged.
pub open spec fn unwrap_internal_slot_v(el: JsxElemV) -> JsxElemV {
    if el.children.len() > 0 {
        match el.children[0] {
            JsxChildV::Elem(inner) => inner,
            _ => el,
        }
    } else {
        el
    }
}

pub fn jsx_unwrap_internal_slot(el: JsxElem) -> (r: JsxElem)
    ensures
        elem_v(r) == unwrap_internal_slot_v(elem_v(el)),
        decreases_to!(el => r) || r == el,
{
    let ghost el0 = el;
    proof {
        lemma_children_v(el.children@);
    }
    if el.children.len() > 0 {
        let is_elem = match &el.children[0] {
            JsxChild::Elem(_) => true,
            _ => false,
        };
        if is_elem {
            let mut el = el;
            let first = el.children.remove(0);
            match first {
                JsxChild::Elem(inner) => {
                    proof {
                        assert(first == el0.children@[0]);
                        assert(decreases_to!(el0 => inner));
                    }
                    return inner;
                },
                _ => {
                    proof {
                        assert(false);
                    }
                    return el;
                },
            }
        }
        return el;
    }
    el
}

} // verus!
