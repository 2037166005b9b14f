//! Decomposition of `style` attributes: a literal style becomes one static
//! inline-style string; a style object is split per CSS property into
//! literal-valued (static) and expression-valued (dynamic) pieces.

use vstd::prelude::*;

use crate::ast::{
    expr_v, exprs_v, lemma_exprs_v, lemma_obj_props_v, obj_prop_v, obj_props_v, obj_v, JsExpr,
    JsExprV, LitKind, LitKindV, ObjLit, ObjProp, ObjPropV, PropKey, PropKeyV,
};
use crate::diag::{DiagLevel, Diagnostics, DiagnosticV};
use crate::hashes::{dec_of, u32_to_string};

verus! {

// ---------------------------------------------------------------------------
// The CSS property table: an external fixed lookup collaborator, supplied
// as data. Lookup takes the first entry whose name matches.
// ---------------------------------------------------------------------------

#[derive(Debug)]
pub struct CssProperty {
    pub name: String,
    pub id: u32,
}

pub struct CssPropertyV {
    pub name: Seq<char>,
    pub id: u32,
}

pub open spec fn css_prop_v(p: CssProperty) -> CssPropertyV {
    CssPropertyV { name: p.name@, id: p.id }
}

pub open spec fn css_props_v(ps: Seq<CssProperty>) -> Seq<CssPropertyV>
    decreases ps,
{
    if ps.len() == 0 {
        Seq::empty()
    } else {
        css_props_v(ps.drop_last()).push(css_prop_v(ps.last()))
    }
}

pub proof fn lemma_css_props_v(ps: Seq<CssProperty>)
    ensures
        css_props_v(ps).len() == ps.len(),
        forall|j: int| 0 <= j < ps.len() ==> css_props_v(ps)[j] == css_prop_v(#[trigger] ps[j]),
    decreases ps,
{
    if ps.len() > 0 {
        lemma_css_props_v(ps.drop_last());
        assert forall|j: int| 0 <= j < ps.len() implies css_props_v(ps)[j] == css_prop_v(
            #[trigger] ps[j],
        ) by {
            if j < ps.len() - 1 {
                assert(css_props_v(ps)[j] == css_props_v(ps.drop_last())[j]);
                assert(ps.drop_last()[j] == ps[j]);
            }
        }
    }
}

pub open spec fn css_lookup(entries: Seq<CssPropertyV>, name: Seq<char>) -> Option<u32>
    decreases entries,
{
    if entries.len() == 0 {
        Option::None
    } else if entries[0].name == name {
        Option::Some(entries[0].id)
    } else {
        css_lookup(entries.drop_first(), name)
    }
}

#[derive(Debug)]
pub struct CssPropertyTable {
    pub entries: Vec<CssProperty>,
}

impl CssPropertyTable {
    pub open spec fn view(&self) -> Seq<CssPropertyV> {
        css_props_v(self.entries@)
    }

    /// The id of a (kebab-case) CSS property name, if the table knows it.
    pub fn lookup(&self, name: &String) -> (r: Option<u32>)
        ensures
            r == css_lookup(self@, name@),
    {
        proof {
            lemma_css_props_v(self.entries@);
        }
        let n = self.entries.len();
        let mut i: usize = 0;
        proof {
            assert(self@.skip(0) =~= self@);
        }
        while i < n
            invariant
                i <= n,
                n == self.entries@.len(),
                self@.len() == n,
                forall|j: int|
                    0 <= j < n ==> self@[j] == css_prop_v(#[trigger] self.entries@[j]),
                css_lookup(self@.skip(i as int), name@) == css_lookup(self@, name@),
            decreases n - i,
        {
            if crate::strutil::str_eq(&self.entries[i].name, name.as_str()) {
                proof {
                    assert(self@.skip(i as int)[0] == self@[i as int]);
                }
                return Option::Some(self.entries[i].id);
            }
            proof {
                assert(self@.skip(i as int)[0] == self@[i as int]);
                assert(self@.skip(i as int).drop_first() =~= self@.skip(i + 1));
            }
            i += 1;
        }
        proof {
            assert(self@.skip(n as int) =~= Seq::<CssPropertyV>::empty());
        }
        Option::None
    }
}

// ---------------------------------------------------------------------------
// Case conversion, through an outside crate.
// ---------------------------------------------------------------------------

/// The kebab-case form of a camel-case property name. The result depends on
/// the characters alone; the trusted wrapper below produces it.
pub uninterp spec fn kebab_of(s: Seq<char>) -> Seq<char>;

/// Relies on convert_case's `Casing`: splits the name on camel-case
/// boundaries and joins the lowercased words with hyphens.
#[verifier::external_body]
fn to_kebab(s: &String) -> (r: String)
    ensures
        r@ == kebab_of(s@),
{
    convert_case::Casing::from_case(s, convert_case::Case::Camel).to_case(
        convert_case::Case::Kebab,
    )
}

// ---------------------------------------------------------------------------
// What counts as a literal expression: literals, substitution-free
// templates, and arrays or plain-keyed objects of such.
// ---------------------------------------------------------------------------

pub open spec fn is_literal_v(e: JsExprV) -> bool
    decreases e,
{
    match e {
        JsExprV::Lit(_) => true,
        JsExprV::Tpl(_) => true,
        JsExprV::Object(o) => props_literal_v(o.props),
        JsExprV::Arr(es) => exprs_literal_v(es),
        JsExprV::Jsx(_) => false,
        JsExprV::JsxFrag(_) => false,
        JsExprV::Opaque(_) => false,
    }
}

pub open spec fn props_literal_v(ps: Seq<ObjPropV>) -> bool
    decreases ps,
{
    if ps.len() == 0 {
        true
    } else {
        (match ps[0] {
            ObjPropV::KeyValue(k, v) => !(k is Computed) && is_literal_v(v),
            _ => false,
        }) && props_literal_v(ps.drop_first())
    }
}

pub open spec fn exprs_literal_v(es: Seq<JsExprV>) -> bool
    decreases es,
{
    if es.len() == 0 {
        true
    } else {
        is_literal_v(es[0]) && exprs_literal_v(es.drop_first())
    }
}

pub fn is_literal(e: &JsExpr) -> (r: bool)
    ensures
        r == is_literal_v(expr_v(*e)),
    decreases *e,
{
    match e {
        JsExpr::Lit(_) => true,
        JsExpr::Tpl(_) => true,
        JsExpr::Object(o) => props_literal(&o.props),
        JsExpr::Arr(es) => exprs_literal(es),
        JsExpr::Jsx(_) => false,
        JsExpr::JsxFrag(_) => false,
        JsExpr::Opaque(_) => false,
    }
}

fn props_literal(ps: &Vec<ObjProp>) -> (r: bool)
    ensures
        r == props_literal_v(obj_props_v(ps@)),
    decreases ps@,
{
    proof {
        lemma_obj_props_v(ps@);
    }
    let n = ps.len();
    let mut i: usize = 0;
    proof {
        assert(obj_props_v(ps@).skip(0) =~= obj_props_v(ps@));
    }
    while i < n
        invariant
            i <= n,
            n == ps@.len(),
            obj_props_v(ps@).len() == n,
            forall|j: int| 0 <= j < n ==> obj_props_v(ps@)[j] == obj_prop_v(#[trigger] ps@[j]),
            props_literal_v(obj_props_v(ps@)) == props_literal_v(obj_props_v(ps@).skip(i as int)),
        decreases n - i,
    {
        let ok: bool = match &ps[i] {
            ObjProp::KeyValue(k, v) => {
                let computed = match k {
                    PropKey::Computed(_) => true,
                    _ => false,
                };
                if computed {
                    false
                } else {
                    is_literal(v)
                }
            },
            _ => false,
        };
        proof {
            assert(obj_props_v(ps@).skip(i as int)[0] == obj_props_v(ps@)[i as int]);
            assert(obj_props_v(ps@).skip(i as int).drop_first() =~= obj_props_v(ps@).skip(
                i + 1,
            ));
        }
        if !ok {
            return false;
        }
        i += 1;
    }
    proof {
        assert(obj_props_v(ps@).skip(n as int) =~= Seq::<ObjPropV>::empty());
    }
    true
}

fn exprs_literal(es: &Vec<JsExpr>) -> (r: bool)
    ensures
        r == exprs_literal_v(exprs_v(es@)),
    decreases es@,
{
    proof {
        lemma_exprs_v(es@);
    }
    let n = es.len();
    let mut i: usize = 0;
    proof {
        assert(exprs_v(es@).skip(0) =~= exprs_v(es@));
    }
    while i < n
        invariant
            i <= n,
            n == es@.len(),
            exprs_v(es@).len() == n,
            forall|j: int| 0 <= j < n ==> exprs_v(es@)[j] == expr_v(#[trigger] es@[j]),
            exprs_literal_v(exprs_v(es@)) == exprs_literal_v(exprs_v(es@).skip(i as int)),
        decreases n - i,
    {
        let ok = is_literal(&es[i]);
        proof {
            assert(exprs_v(es@).skip(i as int)[0] == exprs_v(es@)[i as int]);
            assert(exprs_v(es@).skip(i as int).drop_first() =~= exprs_v(es@).skip(i + 1));
        }
        if !ok {
            return false;
        }
        i += 1;
    }
    proof {
        assert(exprs_v(es@).skip(n as int) =~= Seq::<JsExprV>::empty());
    }
    true
}


// ---------------------------------------------------------------------------
// A literal style value becomes one inline-style string.
// ---------------------------------------------------------------------------

/// The kebab-cased text of an object key, if the key is plain.
pub open spec fn key_text_v(k: PropKeyV) -> Option<Seq<char>> {
    match k {
        PropKeyV::Str(s) => Option::Some(kebab_of(s)),
        PropKeyV::Ident(s) => Option::Some(kebab_of(s)),
        PropKeyV::Num(n) => Option::Some(kebab_of(dec_of(n as nat))),
        PropKeyV::Computed(_) => Option::None,
    }
}

/// The text of a property value that can stand in an inline-style string:
/// string and numeric literals and substitution-free templates; anything
/// else is dropped.
pub open spec fn value_text_v(v: JsExprV) -> Option<Seq<char>> {
    match v {
        JsExprV::Lit(LitKindV::Str(s)) => Option::Some(s),
        JsExprV::Lit(LitKindV::Num(raw)) => Option::Some(raw),
        JsExprV::Tpl(s) => Option::Some(s),
        _ => Option::None,
    }
}

/// `key:value` pieces joined by `;`, accumulator style.
pub open spec fn string_style_obj_v(ps: Seq<ObjPropV>, i: int, acc: Seq<char>, any: bool) -> Seq<
    char,
>
    decreases ps.len() - i,
{
    if i < 0 || i >= ps.len() {
        acc
    } else {
        match ps[i] {
            ObjPropV::KeyValue(k, v) => match (key_text_v(k), value_text_v(v)) {
                (Option::Some(key), Option::Some(text)) => string_style_obj_v(
                    ps,
                    i + 1,
                    (if any {
                        acc + ";"@
                    } else {
                        acc
                    }) + key + ":"@ + text,
                    true,
                ),
                _ => string_style_obj_v(ps, i + 1, acc, any),
            },
            _ => string_style_obj_v(ps, i + 1, acc, any),
        }
    }
}

/// What a literal style value turns into: the inline-style string, or
/// nothing, beside whether a warning about the value's shape is due.
pub open spec fn string_style_v(e: JsExprV) -> (Option<Seq<char>>, bool) {
    if !is_literal_v(e) {
        (Option::None, false)
    } else {
        match e {
            JsExprV::Object(o) => (
                Option::Some(string_style_obj_v(o.props, 0, Seq::empty(), false)),
                false,
            ),
            JsExprV::Lit(LitKindV::Str(s)) => (Option::Some(s), false),
            JsExprV::Tpl(s) => (Option::Some(s), false),
            JsExprV::Lit(_) => (Option::None, true),
            JsExprV::Arr(_) => (Option::None, true),
            _ => (Option::None, false),
        }
    }
}

/// Turns a literal `style` value into one inline-style string, warning on
/// literal shapes that cannot stand as a style.
pub fn get_string_inline_style_from_literal(e: &JsExpr, diags: &mut Diagnostics) -> (r: Option<
    String,
>)
    ensures
        (r is Some) == (string_style_v(expr_v(*e)).0 is Some),
        r is Some ==> r.unwrap()@ == string_style_v(expr_v(*e)).0.unwrap(),
        final(diags)@ == if string_style_v(expr_v(*e)).1 {
            old(diags)@.push(
                DiagnosticV { level: DiagLevel::Warning, message: "Unexpected literal for style"@ },
            )
        } else {
            old(diags)@
        },
{
    proof {
        reveal_strlit(";");
        reveal_strlit(":");
    }
    if !is_literal(e) {
        return Option::None;
    }
    match e {
        JsExpr::Object(o) => {
            proof {
                lemma_obj_props_v(o.props@);
            }
            let ghost psv = obj_props_v(o.props@);
            let n = o.props.len();
            let mut acc = String::new();
            let mut any = false;
            let mut i: usize = 0;
            proof {
                assert(acc@ =~= Seq::<char>::empty());
            }
            while i < n
                invariant
                    i <= n,
                    n == o.props@.len(),
                    psv == obj_props_v(o.props@),
                    psv.len() == n,
                    forall|j: int| 0 <= j < n ==> psv[j] == obj_prop_v(#[trigger] o.props@[j]),
                    string_style_obj_v(psv, i as int, acc@, any) == string_style_obj_v(
                        psv,
                        0,
                        Seq::empty(),
                        false,
                    ),
                decreases n - i,
            {
                let ghost prev_acc = acc@;
                let ghost prev_any = any;
                match &o.props[i] {
                    ObjProp::KeyValue(k, v) => {
                        let text: Option<&String> = match v {
                            JsExpr::Lit(LitKind::Str(s)) => Option::Some(s),
                            JsExpr::Lit(LitKind::Num(raw)) => Option::Some(raw),
                            JsExpr::Tpl(s) => Option::Some(s),
                            _ => Option::None,
                        };
                        match text {
                            Option::Some(text) => {
                                let key: Option<String> = match k {
                                    PropKey::Str(s) => Option::Some(to_kebab(s)),
                                    PropKey::Ident(s) => Option::Some(to_kebab(s)),
                                    PropKey::Num(num) => Option::Some(
                                        to_kebab(&u32_to_string(*num)),
                                    ),
                                    PropKey::Computed(_) => Option::None,
                                };
                                match key {
                                    Option::Some(key) => {
                                        if any {
                                            acc.push(';');
                                        }
                                        acc.append(key.as_str());
                                        acc.push(':');
                                        acc.append(text.as_str());
                                        any = true;
                                        proof {
                                            reveal_strlit(";");
                                            reveal_strlit(":");
                                            assert(";"@ =~= seq![';']);
                                            assert(":"@ =~= seq![':']);
                                            assert(acc@ =~= (if prev_any {
                                                prev_acc + ";"@
                                            } else {
                                                prev_acc
                                            }) + key@ + ":"@ + text@);
                                        }
                                    },
                                    Option::None => {},
                                }
                            },
                            Option::None => {},
                        }
                    },
                    _ => {},
                }
                i += 1;
            }
            Option::Some(acc)
        },
        JsExpr::Lit(LitKind::Str(s)) => {
            let r = s.as_str().to_owned();
            Option::Some(r)
        },
        JsExpr::Tpl(s) => {
            let r = s.as_str().to_owned();
            Option::Some(r)
        },
        JsExpr::Lit(_) => {
            diags.warn("Unexpected literal for style");
            Option::None
        },
        JsExpr::Arr(_) => {
            diags.warn("Unexpected literal for style");
            Option::None
        },
        _ => Option::None,
    }
}

// ---------------------------------------------------------------------------
// A style object is decomposed per CSS property.
// ---------------------------------------------------------------------------

/// One decomposed style property: its id in the table and its value.
#[derive(Debug)]
pub struct StyleProp {
    pub id: u32,
    pub value: JsExpr,
}

pub struct StylePropV {
    pub id: u32,
    pub value: JsExprV,
}

pub open spec fn style_prop_v(p: StyleProp) -> StylePropV
    decreases p,
{
    StylePropV { id: p.id, value: expr_v(p.value) }
}

pub open spec fn style_props_v(ps: Seq<StyleProp>) -> Seq<StylePropV>
    decreases ps,
{
    if ps.len() == 0 {
        Seq::empty()
    } else {
        style_props_v(ps.drop_last()).push(style_prop_v(ps.last()))
    }
}

pub proof fn lemma_style_props_v(ps: Seq<StyleProp>)
    ensures
        style_props_v(ps).len() == ps.len(),
        forall|j: int| 0 <= j < ps.len() ==> style_props_v(ps)[j] == style_prop_v(#[trigger] ps[j]),
    decreases ps,
{
    if ps.len() > 0 {
        lemma_style_props_v(ps.drop_last());
        assert forall|j: int| 0 <= j < ps.len() implies style_props_v(ps)[j] == style_prop_v(
            #[trigger] ps[j],
        ) by {
            if j < ps.len() - 1 {
                assert(style_props_v(ps)[j] == style_props_v(ps.drop_last())[j]);
                assert(ps.drop_last()[j] == ps[j]);
            }
        }
    }
}

/// The property ids of a style object, in source order: one per property,
/// or nothing if a property cannot be decomposed. The second component says
/// whether an unknown-property warning is due.
pub open spec fn style_ids_v(
    ps: Seq<ObjPropV>,
    i: int,
    acc: Seq<u32>,
    table: Seq<CssPropertyV>,
) -> (Option<Seq<u32>>, bool)
    decreases ps.len() - i,
{
    if i < 0 || i >= ps.len() {
        (Option::Some(acc), false)
    } else {
        match ps[i] {
            ObjPropV::KeyValue(k, _) => match k {
                PropKeyV::Computed(_) => (Option::None, false),
                PropKeyV::Num(n) => style_ids_v(ps, i + 1, acc.push(n), table),
                PropKeyV::Str(s) => match css_lookup(table, kebab_of(s)) {
                    Option::Some(id) => style_ids_v(ps, i + 1, acc.push(id), table),
                    Option::None => (Option::None, true),
                },
                PropKeyV::Ident(s) => match css_lookup(table, kebab_of(s)) {
                    Option::Some(id) => style_ids_v(ps, i + 1, acc.push(id), table),
                    Option::None => (Option::None, true),
                },
            },
            ObjPropV::Shorthand(s) => match css_lookup(table, kebab_of(s)) {
                Option::Some(id) => style_ids_v(ps, i + 1, acc.push(id), table),
                Option::None => (Option::None, true),
            },
            ObjPropV::Spread(_) => (Option::None, false),
            ObjPropV::Method(_) => (Option::None, false),
        }
    }
}

/// The decomposed properties: the id from `ids` beside the property's value
/// (a shorthand's value is the identifier itself).
pub open spec fn style_zip_v(ps: Seq<ObjPropV>, ids: Seq<u32>, i: int) -> Seq<StylePropV>
    decreases ps.len() - i,
{
    if i < 0 || i >= ps.len() || ps.len() != ids.len() {
        Seq::empty()
    } else {
        match ps[i] {
            ObjPropV::KeyValue(_, v) => seq![StylePropV { id: ids[i], value: v }] + style_zip_v(
                ps,
                ids,
                i + 1,
            ),
            ObjPropV::Shorthand(s) => seq![
                StylePropV { id: ids[i], value: JsExprV::Opaque(s) },
            ] + style_zip_v(ps, ids, i + 1),
            _ => style_zip_v(ps, ids, i + 1),
        }
    }
}

/// First pass over a style object: the ids, if every property decomposes.
fn check_styles(table: &CssPropertyTable, object: &ObjLit, diags: &mut Diagnostics) -> (r: Option<
    Vec<u32>,
>)
    ensures
        ({
            let (ids, warned) = style_ids_v(obj_props_v(object.props@), 0, Seq::empty(), table@);
            &&& (r is Some) == (ids is Some)
            &&& r is Some ==> r.unwrap()@ == ids.unwrap()
            &&& final(diags)@ == if warned {
                old(diags)@.push(
                    DiagnosticV {
                        level: DiagLevel::Warning,
                        message: "Unknown css property, fallbak to SetInlineStyle"@,
                    },
                )
            } else {
                old(diags)@
            }
        }),
{
    proof {
        lemma_obj_props_v(object.props@);
    }
    let ghost psv = obj_props_v(object.props@);
    let ghost table_v = table@;
    let n = object.props.len();
    let mut ids: Vec<u32> = Vec::new();
    let mut i: usize = 0;
    proof {
        assert(ids@ =~= Seq::<u32>::empty());
    }
    while i < n
        invariant
            i <= n,
            n == object.props@.len(),
            psv == obj_props_v(object.props@),
            table_v == table@,
            psv.len() == n,
            forall|j: int| 0 <= j < n ==> psv[j] == obj_prop_v(#[trigger] object.props@[j]),
            style_ids_v(psv, i as int, ids@, table_v) == style_ids_v(
                psv,
                0,
                Seq::empty(),
                table_v,
            ),
            diags@ == old(diags)@,
        decreases n - i,
    {
        match &object.props[i] {
            ObjProp::KeyValue(k, _) => {
                match k {
                    PropKey::Computed(_) => {
                        return Option::None;
                    },
                    PropKey::Num(num) => {
                        ids.push(*num);
                    },
                    PropKey::Str(s) => {
                        let kebab = to_kebab(s);
                        match table.lookup(&kebab) {
                            Option::Some(id) => {
                                ids.push(id);
                            },
                            Option::None => {
                                diags.warn("Unknown css property, fallbak to SetInlineStyle");
                                return Option::None;
                            },
                        }
                    },
                    PropKey::Ident(s) => {
                        let kebab = to_kebab(s);
                        match table.lookup(&kebab) {
                            Option::Some(id) => {
                                ids.push(id);
                            },
                            Option::None => {
                                diags.warn("Unknown css property, fallbak to SetInlineStyle");
                                return Option::None;
                            },
                        }
                    },
                }
            },
            ObjProp::Shorthand(s) => {
                let kebab = to_kebab(s);
                match table.lookup(&kebab) {
                    Option::Some(id) => {
                        ids.push(id);
                    },
                    Option::None => {
                        diags.warn("Unknown css property, fallbak to SetInlineStyle");
                        return Option::None;
                    },
                }
            },
            ObjProp::Spread(_) => {
                return Option::None;
            },
            ObjProp::Method(_) => {
                return Option::None;
            },
        }
        i += 1;
    }
    Option::Some(ids)
}

/// Second pass: pairs each property's value with its id.
fn split_styles(object: ObjLit, ids: &Vec<u32>) -> (r: Vec<StyleProp>)
    requires
        ids@.len() == object.props@.len(),
        forall|j: int|
            0 <= j < object.props@.len() ==> (#[trigger] obj_props_v(object.props@)[j])
                matches ObjPropV::KeyValue(_, _) || obj_props_v(object.props@)[j]
                matches ObjPropV::Shorthand(_),
    ensures
        style_props_v(r@) == style_zip_v(obj_props_v(object.props@), ids@, 0),
{
    proof {
        lemma_obj_props_v(object.props@);
    }
    let ghost psv = obj_props_v(object.props@);
    let mut out: Vec<StyleProp> = Vec::new();
    let mut rest = object.props;
    let mut i: usize = 0;
    let n = rest.len();
    proof {
        lemma_style_props_v(out@);
        assert(style_props_v(out@) =~= Seq::<StylePropV>::empty());
    }
    while i < n
        invariant
            i <= n,
            n == psv.len(),
            n == ids@.len(),
            rest@.len() == n - i,
            forall|j: int| 0 <= j < n - i ==> obj_prop_v(#[trigger] rest@[j]) == psv[j + i],
            forall|j: int|
                0 <= j < n ==> (#[trigger] psv[j]) matches ObjPropV::KeyValue(_, _) || psv[j]
                    matches ObjPropV::Shorthand(_),
            style_props_v(out@) + style_zip_v(psv, ids@, i as int) == style_zip_v(psv, ids@, 0),
        decreases n - i,
    {
        let ghost prev_out = out@;
        let p = rest.remove(0);
        match p {
            ObjProp::KeyValue(_, v) => {
                out.push(StyleProp { id: ids[i], value: v });
            },
            ObjProp::Shorthand(s) => {
                out.push(StyleProp { id: ids[i], value: JsExpr::Opaque(s) });
            },
            ObjProp::Spread(_) => {
                proof {
                    assert(false);
                }
            },
            ObjProp::Method(_) => {
                proof {
                    assert(false);
                }
            },
        }
        proof {
            assert(out@.drop_last() =~= prev_out);
            assert(style_props_v(out@) + style_zip_v(psv, ids@, i + 1) =~= style_props_v(
                prev_out,
            ) + style_zip_v(psv, ids@, i as int));
            assert forall|j: int| 0 <= j < n - (i + 1) implies obj_prop_v(
                #[trigger] rest@[j],
            ) == psv[j + i + 1] by {
                assert(rest@[j] == old_rest_helper(rest@, j));
            }
        }
        i += 1;
    }
    out
}

spec fn old_rest_helper(rest: Seq<ObjProp>, j: int) -> ObjProp {
    rest[j]
}

/// Extracts the CSS property ids and values from a style object, in source
/// order. A spread, a computed or method key, or a property name the table
/// does not know makes the whole extraction fail; the object then comes
/// back unchanged and one warning is emitted for an unknown name.
pub fn get_inline_style_from_object(
    table: &CssPropertyTable,
    object: ObjLit,
    diags: &mut Diagnostics,
) -> (r: Result<Vec<StyleProp>, ObjLit>)
    ensures
        ({
            let (ids, warned) = style_ids_v(obj_props_v(object.props@), 0, Seq::empty(), table@);
            &&& (r is Ok) == (ids is Some)
            &&& (r matches Result::Ok(styles) ==> style_props_v(styles@) == style_zip_v(
                obj_props_v(object.props@),
                ids.unwrap(),
                0,
            ))
            &&& (r matches Result::Err(back) ==> obj_v(back) == obj_v(object))
            &&& final(diags)@ == if warned {
                old(diags)@.push(
                    DiagnosticV {
                        level: DiagLevel::Warning,
                        message: "Unknown css property, fallbak to SetInlineStyle"@,
                    },
                )
            } else {
                old(diags)@
            }
        }),
{
    match check_styles(table, &object, diags) {
        Option::Some(ids) => {
            proof {
                lemma_obj_props_v(object.props@);
                lemma_style_ids_shape(
                    obj_props_v(object.props@),
                    0,
                    Seq::empty(),
                    table@,
                );
            }
            Result::Ok(split_styles(object, &ids))
        },
        Option::None => Result::Err(object),
    }
}

/// When every property yields an id, each is a key-value or shorthand and
/// the ids line up one per property.
pub proof fn lemma_style_ids_shape(ps: Seq<ObjPropV>, i: int, acc: Seq<u32>, table: Seq<CssPropertyV>)
    requires
        0 <= i <= ps.len(),
        style_ids_v(ps, i, acc, table).0 is Some,
    ensures
        style_ids_v(ps, i, acc, table).0.unwrap().len() == acc.len() + ps.len() - i,
        forall|j: int|
            i <= j < ps.len() ==> (#[trigger] ps[j]) matches ObjPropV::KeyValue(_, _) || ps[j]
                matches ObjPropV::Shorthand(_),
    decreases ps.len() - i,
{
    if i < ps.len() {
        match ps[i] {
            ObjPropV::KeyValue(k, _) => match k {
                PropKeyV::Num(n) => lemma_style_ids_shape(ps, i + 1, acc.push(n), table),
                PropKeyV::Str(s) => lemma_style_ids_shape(
                    ps,
                    i + 1,
                    acc.push(css_lookup(table, kebab_of(s)).unwrap()),
                    table,
                ),
                PropKeyV::Ident(s) => lemma_style_ids_shape(
                    ps,
                    i + 1,
                    acc.push(css_lookup(table, kebab_of(s)).unwrap()),
                    table,
                ),
                PropKeyV::Computed(_) => {},
            },
            ObjPropV::Shorthand(s) => lemma_style_ids_shape(
                ps,
                i + 1,
                acc.push(css_lookup(table, kebab_of(s)).unwrap()),
                table,
            ),
            ObjPropV::Spread(_) => {},
            ObjPropV::Method(_) => {},
        }
    }
}


/// When the ids line up and every property is a key-value or shorthand,
/// the zip has one entry per property.
pub proof fn lemma_style_zip_len(ps: Seq<ObjPropV>, ids: Seq<u32>, i: int)
    requires
        0 <= i <= ps.len(),
        ids.len() == ps.len(),
        forall|j: int|
            0 <= j < ps.len() ==> (#[trigger] ps[j]) matches ObjPropV::KeyValue(_, _) || ps[j]
                matches ObjPropV::Shorthand(_),
    ensures
        style_zip_v(ps, ids, i).len() == ps.len() - i,
    decreases ps.len() - i,
{
    if i < ps.len() {
        lemma_style_zip_len(ps, ids, i + 1);
    }
}

} // verus!
