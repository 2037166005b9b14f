//! The JSX tree that the compiler consumes, modelled as plain data.
//!
//! Element and attribute names, literals and opaque expression payloads are
//! carried as strings; a ghost mirror of every type (suffix `V`) carries the
//! same structure over `Seq<char>`, and the view functions below relate the
//! two. All contracts of the compiler are stated over the mirrors.

use vstd::prelude::*;

verus! {

/// How a JSX element is named: a lowercase (or namespaced) tag, or a
/// reference to a component (capitalized identifier, member expression or
/// `this`), whose source text is carried verbatim.
#[derive(Debug)]
pub enum ElemName {
    Tag(String),
    Component(String),
}

/// A JavaScript literal as far as the compiler reads it. Numeric literals
/// keep their source text; the compiler never does arithmetic on them.
#[derive(Debug)]
pub enum LitKind {
    Str(String),
    Bool(bool),
    Null,
    Num(String),
}

/// A property key inside an object literal.
#[derive(Debug)]
pub enum PropKey {
    Str(String),
    Ident(String),
    /// A numeric key already denoting a style property id.
    Num(u32),
    /// A computed key `[expr]`; the bracketed source text is kept.
    Computed(String),
}

/// A property of an object literal.
#[derive(Debug)]
pub enum ObjProp {
    KeyValue(PropKey, JsExpr),
    Shorthand(String),
    Spread(JsExpr),
    /// A method, getter or setter; its source text is kept.
    Method(String),
}

#[derive(Debug)]
pub struct ObjLit {
    pub props: Vec<ObjProp>,
}

/// A JavaScript expression as far as the compiler reads it. Anything whose
/// inside the compiler never inspects is `Opaque`, carrying source text.
#[derive(Debug)]
pub enum JsExpr {
    Lit(LitKind),
    /// A template literal without substitutions; the cooked text.
    Tpl(String),
    Object(ObjLit),
    Arr(Vec<JsExpr>),
    Jsx(JsxElem),
    JsxFrag(Vec<JsxChild>),
    Opaque(String),
}

/// An attribute name: plain or namespaced (`ns:name`).
#[derive(Debug)]
pub enum AttrKey {
    Ident(String),
    Ns(String, String),
}

/// An attribute value. A missing value (`<view checked/>`) is `None` at the
/// use site; an empty expression container (`attr={/*…*/}`) is `EmptyExpr`.
#[derive(Debug)]
pub enum AttrVal {
    Lit(LitKind),
    Expr(JsExpr),
    EmptyExpr,
}

#[derive(Debug)]
pub struct JsxAttr {
    pub key: AttrKey,
    pub val: Option<AttrVal>,
}

#[derive(Debug)]
pub enum AttrOrSpread {
    Attr(JsxAttr),
    Spread(JsExpr),
}

#[derive(Debug)]
pub struct JsxElem {
    pub name: ElemName,
    pub attrs: Vec<AttrOrSpread>,
    pub children: Vec<JsxChild>,
}

#[derive(Debug)]
pub enum JsxChild {
    Elem(JsxElem),
    Text(String),
    ExprChild(JsExpr),
    /// An empty expression container (a comment).
    EmptyExprChild,
    Frag(Vec<JsxChild>),
}

// ---------------------------------------------------------------------------
// Ghost mirrors.
// ---------------------------------------------------------------------------

pub enum ElemNameV {
    Tag(Seq<char>),
    Component(Seq<char>),
}

pub enum LitKindV {
    Str(Seq<char>),
    Bool(bool),
    Null,
    Num(Seq<char>),
}

pub enum PropKeyV {
    Str(Seq<char>),
    Ident(Seq<char>),
    Num(u32),
    Computed(Seq<char>),
}

pub enum ObjPropV {
    KeyValue(PropKeyV, JsExprV),
    Shorthand(Seq<char>),
    Spread(JsExprV),
    Method(Seq<char>),
}

pub struct ObjLitV {
    pub props: Seq<ObjPropV>,
}

pub enum JsExprV {
    Lit(LitKindV),
    Tpl(Seq<char>),
    Object(ObjLitV),
    Arr(Seq<JsExprV>),
    Jsx(JsxElemV),
    JsxFrag(Seq<JsxChildV>),
    Opaque(Seq<char>),
}

pub enum AttrKeyV {
    Ident(Seq<char>),
    Ns(Seq<char>, Seq<char>),
}

pub enum AttrValV {
    Lit(LitKindV),
    Expr(JsExprV),
    EmptyExpr,
}

pub struct JsxAttrV {
    pub key: AttrKeyV,
    pub val: Option<AttrValV>,
}

pub enum AttrOrSpreadV {
    Attr(JsxAttrV),
    Spread(JsExprV),
}

pub struct JsxElemV {
    pub name: ElemNameV,
    pub attrs: Seq<AttrOrSpreadV>,
    pub children: Seq<JsxChildV>,
}

pub enum JsxChildV {
    Elem(JsxElemV),
    Text(Seq<char>),
    ExprChild(JsExprV),
    EmptyExprChild,
    Frag(Seq<JsxChildV>),
}

// ---------------------------------------------------------------------------
// View functions from the exec types to the mirrors.
// ---------------------------------------------------------------------------

pub open spec fn name_v(n: ElemName) -> ElemNameV {
    match n {
        ElemName::Tag(t) => ElemNameV::Tag(t@),
        ElemName::Component(t) => ElemNameV::Component(t@),
    }
}

pub open spec fn lit_v(l: LitKind) -> LitKindV {
    match l {
        LitKind::Str(s) => LitKindV::Str(s@),
        LitKind::Bool(b) => LitKindV::Bool(b),
        LitKind::Null => LitKindV::Null,
        LitKind::Num(s) => LitKindV::Num(s@),
    }
}

pub open spec fn prop_key_v(k: PropKey) -> PropKeyV {
    match k {
        PropKey::Str(s) => PropKeyV::Str(s@),
        PropKey::Ident(s) => PropKeyV::Ident(s@),
        PropKey::Num(n) => PropKeyV::Num(n),
        PropKey::Computed(s) => PropKeyV::Computed(s@),
    }
}

pub open spec fn obj_prop_v(p: ObjProp) -> ObjPropV
    decreases p,
{
    match p {
        ObjProp::KeyValue(k, e) => ObjPropV::KeyValue(prop_key_v(k), expr_v(e)),
        ObjProp::Shorthand(s) => ObjPropV::Shorthand(s@),
        ObjProp::Spread(e) => ObjPropV::Spread(expr_v(e)),
        ObjProp::Method(s) => ObjPropV::Method(s@),
    }
}

pub open spec fn obj_props_v(ps: Seq<ObjProp>) -> Seq<ObjPropV>
    decreases ps,
{
    if ps.len() == 0 {
        Seq::empty()
    } else {
        obj_props_v(ps.drop_last()).push(obj_prop_v(ps.last()))
    }
}

pub open spec fn obj_v(o: ObjLit) -> ObjLitV
    decreases o,
{
    ObjLitV { props: obj_props_v(o.props@) }
}

pub open spec fn expr_v(e: JsExpr) -> JsExprV
    decreases e,
{
    match e {
        JsExpr::Lit(l) => JsExprV::Lit(lit_v(l)),
        JsExpr::Tpl(s) => JsExprV::Tpl(s@),
        JsExpr::Object(o) => JsExprV::Object(obj_v(o)),
        JsExpr::Arr(es) => JsExprV::Arr(exprs_v(es@)),
        JsExpr::Jsx(el) => JsExprV::Jsx(elem_v(el)),
        JsExpr::JsxFrag(cs) => JsExprV::JsxFrag(children_v(cs@)),
        JsExpr::Opaque(s) => JsExprV::Opaque(s@),
    }
}

pub open spec fn exprs_v(es: Seq<JsExpr>) -> Seq<JsExprV>
    decreases es,
{
    if es.len() == 0 {
        Seq::empty()
    } else {
        exprs_v(es.drop_last()).push(expr_v(es.last()))
    }
}

pub open spec fn attr_val_v(v: AttrVal) -> AttrValV
    decreases v,
{
    match v {
        AttrVal::Lit(l) => AttrValV::Lit(lit_v(l)),
        AttrVal::Expr(e) => AttrValV::Expr(expr_v(e)),
        AttrVal::EmptyExpr => AttrValV::EmptyExpr,
    }
}

pub open spec fn attr_key_v(k: AttrKey) -> AttrKeyV {
    match k {
        AttrKey::Ident(s) => AttrKeyV::Ident(s@),
        AttrKey::Ns(a, b) => AttrKeyV::Ns(a@, b@),
    }
}

pub open spec fn opt_attr_val_v(v: Option<AttrVal>) -> Option<AttrValV>
    decreases v,
{
    match v {
        Option::None => Option::None,
        Option::Some(x) => Option::Some(attr_val_v(x)),
    }
}

pub open spec fn attr_v(a: JsxAttr) -> JsxAttrV
    decreases a,
{
    JsxAttrV { key: attr_key_v(a.key), val: opt_attr_val_v(a.val) }
}

pub open spec fn attr_or_spread_v(a: AttrOrSpread) -> AttrOrSpreadV
    decreases a,
{
    match a {
        AttrOrSpread::Attr(at) => AttrOrSpreadV::Attr(attr_v(at)),
        AttrOrSpread::Spread(e) => AttrOrSpreadV::Spread(expr_v(e)),
    }
}

pub open spec fn attrs_v(attrs: Seq<AttrOrSpread>) -> Seq<AttrOrSpreadV>
    decreases attrs,
{
    if attrs.len() == 0 {
        Seq::empty()
    } else {
        attrs_v(attrs.drop_last()).push(attr_or_spread_v(attrs.last()))
    }
}

pub open spec fn elem_v(el: JsxElem) -> JsxElemV
    decreases el,
{
    JsxElemV {
        name: name_v(el.name),
        attrs: attrs_v(el.attrs@),
        children: children_v(el.children@),
    }
}

pub open spec fn child_v(c: JsxChild) -> JsxChildV
    decreases c,
{
    match c {
        JsxChild::Elem(el) => JsxChildV::Elem(elem_v(el)),
        JsxChild::Text(t) => JsxChildV::Text(t@),
        JsxChild::ExprChild(e) => JsxChildV::ExprChild(expr_v(e)),
        JsxChild::EmptyExprChild => JsxChildV::EmptyExprChild,
        JsxChild::Frag(cs) => JsxChildV::Frag(children_v(cs@)),
    }
}

pub open spec fn children_v(cs: Seq<JsxChild>) -> Seq<JsxChildV>
    decreases cs,
{
    if cs.len() == 0 {
        Seq::empty()
    } else {
        children_v(cs.drop_last()).push(child_v(cs.last()))
    }
}

// ---------------------------------------------------------------------------
// Index lemmas for the list views.
// ---------------------------------------------------------------------------

pub proof fn lemma_children_v(cs: Seq<JsxChild>)
    ensures
        children_v(cs).len() == cs.len(),
        forall|j: int| 0 <= j < cs.len() ==> children_v(cs)[j] == child_v(#[trigger] cs[j]),
    decreases cs,
{
    if cs.len() > 0 {
        lemma_children_v(cs.drop_last());
        assert forall|j: int| 0 <= j < cs.len() implies children_v(cs)[j] == child_v(
            #[trigger] cs[j],
        ) by {
            if j < cs.len() - 1 {
                assert(children_v(cs)[j] == children_v(cs.drop_last())[j]);
                assert(cs.drop_last()[j] == cs[j]);
            }
        }
    }
}

pub proof fn lemma_attrs_v(attrs: Seq<AttrOrSpread>)
    ensures
        attrs_v(attrs).len() == attrs.len(),
        forall|j: int|
            0 <= j < attrs.len() ==> attrs_v(attrs)[j] == attr_or_spread_v(#[trigger] attrs[j]),
    decreases attrs,
{
    if attrs.len() > 0 {
        lemma_attrs_v(attrs.drop_last());
        assert forall|j: int|
            0 <= j < attrs.len() implies attrs_v(attrs)[j] == attr_or_spread_v(
            #[trigger] attrs[j],
        ) by {
            if j < attrs.len() - 1 {
                assert(attrs_v(attrs)[j] == attrs_v(attrs.drop_last())[j]);
                assert(attrs.drop_last()[j] == attrs[j]);
            }
        }
    }
}

pub proof fn lemma_exprs_v(es: Seq<JsExpr>)
    ensures
        exprs_v(es).len() == es.len(),
        forall|j: int| 0 <= j < es.len() ==> exprs_v(es)[j] == expr_v(#[trigger] es[j]),
    decreases es,
{
    if es.len() > 0 {
        lemma_exprs_v(es.drop_last());
        assert forall|j: int| 0 <= j < es.len() implies exprs_v(es)[j] == expr_v(
            #[trigger] es[j],
        ) by {
            if j < es.len() - 1 {
                assert(exprs_v(es)[j] == exprs_v(es.drop_last())[j]);
                assert(es.drop_last()[j] == es[j]);
            }
        }
    }
}

pub proof fn lemma_obj_props_v(ps: Seq<ObjProp>)
    ensures
        obj_props_v(ps).len() == ps.len(),
        forall|j: int| 0 <= j < ps.len() ==> obj_props_v(ps)[j] == obj_prop_v(#[trigger] ps[j]),
    decreases ps,
{
    if ps.len() > 0 {
        lemma_obj_props_v(ps.drop_last());
        assert forall|j: int| 0 <= j < ps.len() implies obj_props_v(ps)[j] == obj_prop_v(
            #[trigger] ps[j],
        ) by {
            if j < ps.len() - 1 {
                assert(obj_props_v(ps)[j] == obj_props_v(ps.drop_last())[j]);
                assert(ps.drop_last()[j] == ps[j]);
            }
        }
    }
}

} // verus!
