//! The wrapper marker: a top-down prepass that bounds the number of
//! runtime-diffed regions. A fully dynamic element becomes one
//! `<internal-slot>`; maximal runs of non-anchor siblings are merged into
//! one synthetic `<internal-slot><wrapper>…</wrapper></internal-slot>` per
//! run; anchors stay in place and are marked recursively. The count of
//! slots so created decides later between one inline substitution and
//! independently addressable slots.

use vstd::prelude::*;

use crate::ast::{
    child_v, children_v, elem_v, lemma_children_v, ElemName, ElemNameV, JsxChild, JsxChildV,
    JsxElem, JsxElemV,
};
use crate::jsx::{
    children_full_dynamic_v, children_to_expr_v, has_dynamic_key_v, internal_slot_wrap_v,
    is_custom_v, is_list_v, internal_slot_wrap, jsx_children_to_expr, jsx_has_dynamic_key,
    jsx_is_children_full_dynamic, jsx_is_custom, jsx_is_list,
};
use crate::text::{jsx_text_to_str, text_norm_v};

verus! {

/// Slot counting saturates at the top of `usize`; no real tree reaches it,
/// since every slot consumes at least one distinct child.
pub open spec fn sat_inc_v(n: int) -> int {
    if n < usize::MAX as int {
        n + 1
    } else {
        n
    }
}

pub fn sat_inc(n: usize) -> (r: usize)
    ensures
        r as int == sat_inc_v(n as int),
{
    if n < usize::MAX {
        n + 1
    } else {
        n
    }
}

/// The synthetic wrapper for one merged run of children.
pub open spec fn wrap_chunk_v(chunk: Seq<JsxChildV>) -> JsxChildV {
    JsxChildV::Elem(
        internal_slot_wrap_v(
            JsxElemV { name: ElemNameV::Tag("wrapper"@), attrs: Seq::empty(), children: chunk },
        ),
    )
}

/// Whether a child anchors a static run and stays in place. Empty text is
/// an anchor only while no run is open; unkeyed custom components and
/// expression containers never anchor. A dynamic `key` forces its element
/// to be an anchor: a keyed child is never merged into a run.
pub open spec fn child_is_anchor_v(c: JsxChildV, chunk_empty: bool) -> bool {
    match c {
        JsxChildV::Text(t) => if text_norm_v(t).len() == 0 {
            chunk_empty
        } else {
            true
        },
        JsxChildV::Elem(e) => !is_custom_v(e) || has_dynamic_key_v(e),
        JsxChildV::ExprChild(_) => false,
        JsxChildV::EmptyExprChild => true,
        JsxChildV::Frag(_) => true,
    }
}

/// Marks one element. A custom component is left alone; a `list` has its
/// children collapsed into one expression; a fully dynamic element is
/// wrapped whole; otherwise its children are merged and marked.
pub open spec fn mark_elem_v(el: JsxElemV, cnt: int) -> (JsxElemV, int)
    decreases el, 0int,
{
    if is_custom_v(el) {
        (el, cnt)
    } else {
        let is_list = is_list_v(el);
        let full_dyn = is_list || children_full_dynamic_v(el);
        let el1 = if is_list && el.children.len() > 0 {
            JsxElemV {
                name: el.name,
                attrs: el.attrs,
                children: seq![JsxChildV::ExprChild(children_to_expr_v(el.children))],
            }
        } else {
            el
        };
        if full_dyn {
            (internal_slot_wrap_v(el1), sat_inc_v(cnt))
        } else {
            let r = mark_children_acc(el.children, 0, Seq::empty(), Seq::empty(), cnt);
            (JsxElemV { name: el.name, attrs: el.attrs, children: r.0 }, r.1)
        }
    }
}

/// Marks one anchor child in place. A keyed component is itself one
/// independently addressable region, so it counts as a slot even though
/// it is never merged into a run.
pub open spec fn mark_anchor_v(c: JsxChildV, cnt: int) -> (JsxChildV, int)
    decreases c, 0int,
{
    match c {
        JsxChildV::Elem(e) => {
            let r = mark_elem_v(e, cnt);
            if is_custom_v(e) && has_dynamic_key_v(e) {
                (JsxChildV::Elem(r.0), sat_inc_v(r.1))
            } else {
                (JsxChildV::Elem(r.0), r.1)
            }
        },
        JsxChildV::Frag(inner) => {
            let r = mark_children_acc(inner, 0, Seq::empty(), Seq::empty(), cnt);
            (JsxChildV::Frag(r.0), r.1)
        },
        _ => (c, cnt),
    }
}

/// The merging walk over a child list: `out` holds the rewritten children,
/// `chunk` the currently open run of non-anchor children.
pub open spec fn mark_children_acc(
    cs: Seq<JsxChildV>,
    i: int,
    out: Seq<JsxChildV>,
    chunk: Seq<JsxChildV>,
    cnt: int,
) -> (Seq<JsxChildV>, int)
    decreases cs, cs.len() - i,
{
    if i < 0 || i >= cs.len() {
        if chunk.len() > 0 {
            (out.push(wrap_chunk_v(chunk)), sat_inc_v(cnt))
        } else {
            (out, cnt)
        }
    } else {
        let c = cs[i];
        if child_is_anchor_v(c, chunk.len() == 0) {
            let flushed = if chunk.len() > 0 {
                (out.push(wrap_chunk_v(chunk)), sat_inc_v(cnt))
            } else {
                (out, cnt)
            };
            let marked = mark_anchor_v(c, flushed.1);
            mark_children_acc(cs, i + 1, flushed.0.push(marked.0), Seq::empty(), marked.1)
        } else {
            mark_children_acc(cs, i + 1, out, chunk.push(c), cnt)
        }
    }
}

/// The marked form of a whole child list, with the updated slot count.
pub open spec fn mark_children_v(cs: Seq<JsxChildV>, cnt: int) -> (Seq<JsxChildV>, int) {
    mark_children_acc(cs, 0, Seq::empty(), Seq::empty(), cnt)
}

// ---------------------------------------------------------------------------
// Executable marker.
// ---------------------------------------------------------------------------

/// Marks one element and updates the slot count.
pub fn mark_element(el: JsxElem, cnt: usize) -> (r: (JsxElem, usize))
    ensures
        (elem_v(r.0), r.1 as int) == mark_elem_v(elem_v(el), cnt as int),
    decreases el, 0int,
{
    if jsx_is_custom(&el) {
        return (el, cnt);
    }
    let is_list = jsx_is_list(&el);
    let full_dyn = is_list || jsx_is_children_full_dynamic(&el);
    let JsxElem { name, attrs, children } = el;
    let ghost old_children_v = children_v(children@);
    let children = if is_list && children.len() > 0 {
        let expr = jsx_children_to_expr(children);
        let mut collapsed: Vec<JsxChild> = Vec::new();
        collapsed.push(JsxChild::ExprChild(expr));
        proof {
            assert(collapsed@.drop_last() =~= Seq::<JsxChild>::empty());
            assert(child_v(collapsed@.last()) == JsxChildV::ExprChild(
                children_to_expr_v(old_children_v),
            ));
            assert(children_v(collapsed@.drop_last()) =~= Seq::<JsxChildV>::empty());
            assert(children_v(collapsed@) == children_v(collapsed@.drop_last()).push(
                child_v(collapsed@.last()),
            ));
            assert(children_v(collapsed@) =~~= seq![
                JsxChildV::ExprChild(children_to_expr_v(old_children_v)),
            ]);
        }
        collapsed
    } else {
        children
    };
    if full_dyn {
        let wrapped = internal_slot_wrap(JsxElem { name, attrs, children });
        (wrapped, sat_inc(cnt))
    } else {
        let r = mark_children(children, cnt);
        (JsxElem { name, attrs, children: r.0 }, r.1)
    }
}

/// Marks one anchor child in place.
pub fn mark_anchor(c: JsxChild, cnt: usize) -> (r: (JsxChild, usize))
    ensures
        (child_v(r.0), r.1 as int) == mark_anchor_v(child_v(c), cnt as int),
    decreases c, 2int,
{
    match c {
        JsxChild::Elem(e) => {
            let keyed_component = jsx_is_custom(&e) && jsx_has_dynamic_key(&e);
            let r = mark_element(e, cnt);
            if keyed_component {
                (JsxChild::Elem(r.0), sat_inc(r.1))
            } else {
                (JsxChild::Elem(r.0), r.1)
            }
        },
        JsxChild::Frag(inner) => {
            let r = mark_children(inner, cnt);
            (JsxChild::Frag(r.0), r.1)
        },
        other => (other, cnt),
    }
}

/// Merges and marks a child list.
pub fn mark_children(children: Vec<JsxChild>, cnt: usize) -> (r: (Vec<JsxChild>, usize))
    ensures
        (children_v(r.0@), r.1 as int) == mark_children_v(children_v(children@), cnt as int),
    decreases children@, children@.len(),
{
    let ghost whole = children@;
    let ghost cv = children_v(children@);
    let ghost cnt0 = cnt as int;
    proof {
        lemma_children_v(children@);
    }
    let mut out: Vec<JsxChild> = Vec::new();
    let mut chunk: Vec<JsxChild> = Vec::new();
    let mut cnt = cnt;
    let mut rest = children;
    let mut i: usize = 0;
    let n = rest.len();
    proof {
        assert(children_v(out@) =~= Seq::<JsxChildV>::empty());
        assert(children_v(chunk@) =~= Seq::<JsxChildV>::empty());
        assert(whole.skip(0) =~= whole);
    }
    while i < n
        invariant
            i <= n,
            n == cv.len(),
            n == whole.len(),
            whole == children@,
            cv == children_v(whole),
            rest@ =~= whole.skip(i as int),
            mark_children_acc(cv, i as int, children_v(out@), children_v(chunk@), cnt as int)
                == mark_children_acc(cv, 0, Seq::empty(), Seq::empty(), cnt0),
        decreases n - i,
    {
        let ghost it_out = children_v(out@);
        let ghost it_chunk = children_v(chunk@);
        let ghost it_cnt = cnt as int;
        proof {
            lemma_children_v(whole);
            assert(whole.skip(i as int)[0] == whole[i as int]);
            assert(whole.skip(i as int).drop_first() =~= whole.skip(i + 1));
            assert(child_v(whole[i as int]) == cv[i as int]);
        }
        let c = rest.remove(0);
        proof {
            assert(c == whole[i as int]);
        }
        let ghost prev_out = out@;
        let ghost prev_chunk = chunk@;
        let anchor: bool = match &c {
            JsxChild::Text(t) => {
                let norm = jsx_text_to_str(t.as_str());
                if norm.as_str().unicode_len() == 0 {
                    chunk.is_empty()
                } else {
                    true
                }
            },
            JsxChild::Elem(e) => !jsx_is_custom(e) || jsx_has_dynamic_key(e),
            JsxChild::ExprChild(_) => false,
            JsxChild::EmptyExprChild => true,
            JsxChild::Frag(_) => true,
        };
        proof {
            lemma_children_v(chunk@);
            assert(anchor == child_is_anchor_v(cv[i as int], children_v(chunk@).len() == 0));
        }
        if anchor {
            if chunk.len() > 0 {
                let run = chunk;
                chunk = Vec::new();
                let wrapper_el = JsxElem {
                    name: ElemName::Tag(String::from_str("wrapper")),
                    attrs: Vec::new(),
                    children: run,
                };
                proof {
                    assert(crate::ast::attrs_v(wrapper_el.attrs@)
                        =~= Seq::<crate::ast::AttrOrSpreadV>::empty());
                }
                let slot = internal_slot_wrap(wrapper_el);
                out.push(JsxChild::Elem(slot));
                cnt = sat_inc(cnt);
                proof {
                    assert(out@.drop_last() =~= prev_out);
                    assert(child_v(out@.last()) == wrap_chunk_v(children_v(prev_chunk)));
                    assert(children_v(out@) =~= children_v(prev_out).push(
                        wrap_chunk_v(children_v(prev_chunk)),
                    ));
                    assert(children_v(chunk@) =~= Seq::<JsxChildV>::empty());
                }
            }
            let ghost flushed_out = children_v(out@);
            let ghost flushed_cnt = cnt as int;
            // mark the anchor itself
            let anchored = mark_anchor(c, cnt);
            let marked = anchored.0;
            cnt = anchored.1;
            proof {
                assert((child_v(marked), cnt as int) == mark_anchor_v(
                    cv[i as int],
                    flushed_cnt,
                ));
            }
            let ghost pre_push = out@;
            out.push(marked);
            proof {
                assert(out@.drop_last() =~= pre_push);
                assert(children_v(out@) =~= children_v(pre_push).push(child_v(marked)));
            }
        } else {
            let ghost pre_push = chunk@;
            chunk.push(c);
            proof {
                assert(chunk@.drop_last() =~= pre_push);
                assert(children_v(chunk@) =~= children_v(pre_push).push(cv[i as int]));
            }
        }
        proof {
            assert(rest@ =~= whole.skip(i + 1));
            assert(mark_children_acc(cv, i + 1, children_v(out@), children_v(chunk@), cnt as int)
                == mark_children_acc(cv, i as int, it_out, it_chunk, it_cnt));
        }
        i += 1;
    }
    // flush the trailing run
    if chunk.len() > 0 {
        let ghost prev_out = out@;
        let ghost prev_chunk = chunk@;
        let run = chunk;
        let wrapper_el = JsxElem {
            name: ElemName::Tag(String::from_str("wrapper")),
            attrs: Vec::new(),
            children: run,
        };
        proof {
            assert(crate::ast::attrs_v(wrapper_el.attrs@)
                =~= Seq::<crate::ast::AttrOrSpreadV>::empty());
            lemma_children_v(prev_chunk);
        }
        let slot = internal_slot_wrap(wrapper_el);
        out.push(JsxChild::Elem(slot));
        cnt = sat_inc(cnt);
        proof {
            assert(out@.drop_last() =~= prev_out);
            assert(child_v(out@.last()) == wrap_chunk_v(children_v(prev_chunk)));
            assert(children_v(out@) =~= children_v(prev_out).push(
                wrap_chunk_v(children_v(prev_chunk)),
            ));
        }
    }
    (out, cnt)
}

} // verus!
