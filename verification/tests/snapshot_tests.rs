use react_transform::ast::{
    AttrKey, AttrOrSpread, AttrVal, ElemName, JsExpr, JsxAttr, JsxChild, JsxElem, LitKind,
    ObjLit, ObjProp, PropKey,
};
use react_transform::diag::{CompileError, DiagLevel, Diagnostics};
use react_transform::emit::Compiler;
use react_transform::snapshot::{
    CreateKind, SlotKind, SlotSpec, Snapshot, Stmt, Updater, ValueEntry,
};
use react_transform::style::{CssProperty, CssPropertyTable};
use react_transform::target::TransformTarget;

fn table() -> CssPropertyTable {
    let names = [("color", 22u32), ("height", 26u32), ("width", 27u32)];
    let mut entries = Vec::new();
    for (name, id) in names {
        entries.push(CssProperty { name: name.to_string(), id });
    }
    CssPropertyTable { entries }
}

fn compiler(target: TransformTarget) -> Compiler {
    Compiler::new("test.jsx", "test", target, None, table())
}

fn tag(name: &str) -> ElemName {
    ElemName::Tag(name.to_string())
}

fn component(name: &str) -> JsxChild {
    JsxChild::Elem(JsxElem {
        name: ElemName::Component(name.to_string()),
        attrs: vec![],
        children: vec![],
    })
}

fn plain_elem(name: &str) -> JsxChild {
    JsxChild::Elem(JsxElem { name: tag(name), attrs: vec![], children: vec![] })
}

fn attr(name: &str, val: Option<AttrVal>) -> AttrOrSpread {
    AttrOrSpread::Attr(JsxAttr { key: AttrKey::Ident(name.to_string()), val })
}

fn lit_str(s: &str) -> Option<AttrVal> {
    Some(AttrVal::Lit(LitKind::Str(s.to_string())))
}

fn expr_val(s: &str) -> Option<AttrVal> {
    Some(AttrVal::Expr(JsExpr::Opaque(s.to_string())))
}

fn compile(el: JsxElem) -> (Snapshot, Diagnostics) {
    let mut c = compiler(TransformTarget::LEPUS);
    let mut diags = Diagnostics::new();
    let snap = c.compile_root(el, &mut diags).unwrap();
    (snap, diags)
}

/// A tree with zero dynamic expressions: no parts, a self-closing
/// replacement node.
#[test]
fn fully_static_tree_has_no_parts() {
    let el = JsxElem {
        name: tag("view"),
        attrs: vec![attr("class", lit_str("page"))],
        children: vec![
            JsxChild::Text("hello".to_string()),
            plain_elem("text"),
        ],
    };
    let (snap, _) = compile(el);
    assert!(snap.self_closing);
    assert!(snap.updaters.is_none());
    assert!(snap.values.is_none());
    assert!(matches!(snap.slots, SlotSpec::NoSlots));
    assert!(snap.children.is_empty());
    let creator = snap.creator.unwrap();
    assert!(creator
        .iter()
        .any(|s| matches!(s, Stmt::SetClasses(0, LitKind::Str(v)) if v == "page")));
}

/// The uid is `__snapshot_<fileHash>_<contentHash>_<n>`, deterministic.
#[test]
fn uid_is_stable() {
    let el = || JsxElem { name: tag("view"), attrs: vec![], children: vec![] };
    let (snap1, _) = compile(el());
    let (snap2, _) = compile(el());
    assert_eq!(snap1.uid, "__snapshot_d3dd9_test_1");
    assert_eq!(snap1.uid, snap2.uid);
}

/// Identical input compiled twice by one compiler counts up, by two fresh
/// compilers yields identical output.
#[test]
fn identical_inputs_compile_identically() {
    let el = || JsxElem {
        name: tag("view"),
        attrs: vec![attr("id", expr_val("x"))],
        children: vec![component("A"), plain_elem("text"), component("B")],
    };
    let (snap1, _) = compile(el());
    let (snap2, _) = compile(el());
    assert_eq!(snap1.uid, snap2.uid);
    assert_eq!(snap1.element_count, snap2.element_count);
    assert_eq!(snap1.updaters.as_ref().unwrap().len(), snap2.updaters.as_ref().unwrap().len());
    match (&snap1.slots, &snap2.slots) {
        (SlotSpec::Entries(a), SlotSpec::Entries(b)) => {
            assert_eq!(a.len(), b.len());
            for (x, y) in a.iter().zip(b.iter()) {
                assert_eq!(x.kind, y.kind);
                assert_eq!(x.element_index, y.element_index);
            }
        },
        _ => panic!("expected slot entries"),
    }
    // and one compiler counts up
    let mut c = compiler(TransformTarget::LEPUS);
    let mut diags = Diagnostics::new();
    let a = c.compile_root(el(), &mut diags).unwrap();
    let b = c.compile_root(el(), &mut diags).unwrap();
    assert_eq!(a.uid, "__snapshot_d3dd9_test_1");
    assert_eq!(b.uid, "__snapshot_d3dd9_test_2");
}

/// `<view><A/><text/><A/></view>`: the static `text` anchor splits the
/// run, leaving two independent slots, never one merged slot.
#[test]
fn anchor_splits_runs_into_two_slots() {
    let el = JsxElem {
        name: tag("view"),
        attrs: vec![],
        children: vec![component("A"), plain_elem("text"), component("A")],
    };
    let (snap, _) = compile(el);
    match &snap.slots {
        SlotSpec::Entries(es) => {
            assert_eq!(es.len(), 2);
            assert!(es.iter().all(|e| e.kind == SlotKind::SlotHere));
        },
        _ => panic!("expected two slot entries"),
    }
    let creator = snap.creator.unwrap();
    assert_eq!(
        creator.iter().filter(|s| matches!(s, Stmt::Create(_, CreateKind::Text))).count(),
        1
    );
    assert!(!snap.self_closing);
}

/// `<view><A/><A/></view>`: no anchor remains, one `Children` part.
#[test]
fn no_anchor_yields_single_children_part() {
    let el = JsxElem {
        name: tag("view"),
        attrs: vec![],
        children: vec![component("A"), component("A")],
    };
    let (snap, _) = compile(el);
    assert!(matches!(snap.slots, SlotSpec::SingleChildren));
    assert_eq!(snap.children.len(), 1);
}

/// `style="color:red"`: one static setter call, zero dynamic parts.
#[test]
fn literal_style_is_static() {
    let el = JsxElem {
        name: tag("view"),
        attrs: vec![attr("style", lit_str("color:red"))],
        children: vec![],
    };
    let (snap, _) = compile(el);
    assert!(snap.updaters.is_none());
    assert!(snap.values.is_none());
    let creator = snap.creator.unwrap();
    assert_eq!(
        creator
            .iter()
            .filter(|s| matches!(s, Stmt::SetInlineStyles(0, LitKind::Str(v)) if v == "color:red"))
            .count(),
        1
    );
}

/// `style={{color:'red', width: w}}`: one static `__AddInlineStyle` for
/// `color` plus one `ParsedStyle` part containing only `width`.
#[test]
fn mixed_style_object_splits() {
    let style_obj = JsExpr::Object(ObjLit {
        props: vec![
            ObjProp::KeyValue(
                PropKey::Ident("color".to_string()),
                JsExpr::Lit(LitKind::Str("red".to_string())),
            ),
            ObjProp::KeyValue(
                PropKey::Ident("width".to_string()),
                JsExpr::Opaque("w".to_string()),
            ),
        ],
    });
    let el = JsxElem {
        name: tag("view"),
        attrs: vec![attr("style", Some(AttrVal::Expr(style_obj)))],
        children: vec![],
    };
    let (snap, _) = compile(el);
    let creator = snap.creator.unwrap();
    assert_eq!(
        creator
            .iter()
            .filter(
                |s| matches!(s, Stmt::AddInlineStyle(0, 22, JsExpr::Lit(LitKind::Str(v))) if v == "red"),
            )
            .count(),
        1
    );
    let ups = snap.updaters.unwrap();
    assert_eq!(ups.len(), 1);
    match &ups[0] {
        Updater::ParsedStyles { element_index, exp_index, ids } => {
            assert_eq!(*element_index, 0);
            assert_eq!(*exp_index, 0);
            assert_eq!(ids.as_slice(), &[27]);
        },
        other => panic!("expected a parsed-style updater, got {:?}", other),
    }
    let vals = snap.values.unwrap();
    assert_eq!(vals.len(), 1);
    match &vals[0] {
        ValueEntry::Plain(JsExpr::Arr(es)) => {
            assert_eq!(es.len(), 1);
            assert!(matches!(&es[0], JsExpr::Opaque(w) if w == "w"));
        },
        other => panic!("expected an array value, got {:?}", other),
    }
}

/// `<view id="x" {...props} className="y"/>`: exactly one `Spread` part
/// embedding `id` and `className`, not three separate parts.
#[test]
fn spread_swallows_all_attributes() {
    let el = JsxElem {
        name: tag("view"),
        attrs: vec![
            attr("id", lit_str("x")),
            AttrOrSpread::Spread(JsExpr::Opaque("props".to_string())),
            attr("className", lit_str("y")),
        ],
        children: vec![],
    };
    let (snap, _) = compile(el);
    let ups = snap.updaters.unwrap();
    assert_eq!(ups.len(), 1);
    assert!(matches!(ups[0], Updater::UpdateSpread { element_index: 0 }));
    let vals = snap.values.unwrap();
    assert_eq!(vals.len(), 1);
    match &vals[0] {
        ValueEntry::Plain(JsExpr::Object(o)) => {
            let keys: Vec<String> = o
                .props
                .iter()
                .map(|p| match p {
                    ObjProp::KeyValue(PropKey::Str(k), _) => k.clone(),
                    ObjProp::KeyValue(PropKey::Ident(k), _) => k.clone(),
                    ObjProp::Spread(_) => "...".to_string(),
                    _ => "?".to_string(),
                })
                .collect();
            assert_eq!(keys, vec!["id", "...", "className", "__spread"]);
        },
        other => panic!("expected the spread object, got {:?}", other),
    }
}

/// `key` on the root is lifted onto the replacement node and absent from
/// the creator; `key` on a descendant is dropped with a warning.
#[test]
fn key_on_root_is_lifted() {
    let el = JsxElem {
        name: tag("view"),
        attrs: vec![attr("key", expr_val("k"))],
        children: vec![JsxChild::Text("hi".to_string())],
    };
    let (snap, diags) = compile(el);
    assert!(matches!(snap.key, Some(AttrVal::Expr(JsExpr::Opaque(ref k))) if k == "k"));
    assert_eq!(diags.len(), 0);
    let creator = snap.creator.unwrap();
    assert!(!creator.iter().any(|s| matches!(s, Stmt::SetAttr(_, n, _) if n == "key")));
    assert!(snap.updaters.is_none());
}

#[test]
fn key_on_descendant_warns() {
    let el = JsxElem {
        name: tag("view"),
        attrs: vec![],
        children: vec![JsxChild::Elem(JsxElem {
            name: tag("text"),
            attrs: vec![attr("key", lit_str("a"))],
            children: vec![],
        })],
    };
    let (snap, diags) = compile(el);
    assert!(snap.key.is_none());
    assert_eq!(diags.len(), 1);
    assert_eq!(diags.list[0].level, DiagLevel::Warning);
    assert_eq!(diags.list[0].message, "key is not on root element of snapshot");
}

/// `<list>` always yields a `ListChildren` slot entry, even when its
/// `<list-item>` children are individually static.
#[test]
fn list_always_yields_list_children() {
    let el = JsxElem {
        name: tag("list"),
        attrs: vec![],
        children: vec![plain_elem("list-item"), plain_elem("list-item")],
    };
    let (snap, _) = compile(el);
    match &snap.slots {
        SlotSpec::Entries(es) => {
            assert_eq!(es.len(), 1);
            assert_eq!(es[0].kind, SlotKind::ListChildrenHere);
        },
        _ => panic!("expected a list-children entry"),
    }
    assert!(snap.has_instance_param);
    let creator = snap.creator.unwrap();
    assert!(creator.iter().any(|s| matches!(s, Stmt::Create(0, CreateKind::List))));
}

/// Dynamic parts reference only constructed elements.
#[test]
fn part_indexes_stay_below_element_count() {
    let el = JsxElem {
        name: tag("view"),
        attrs: vec![attr("id", expr_val("x"))],
        children: vec![
            plain_elem("text"),
            component("A"),
            plain_elem("image"),
            component("B"),
        ],
    };
    let (snap, _) = compile(el);
    let n = snap.element_count;
    for u in snap.updaters.unwrap() {
        match u {
            Updater::SetId { element_index, .. } => assert!(element_index < n),
            other => panic!("unexpected updater {:?}", other),
        }
    }
    if let SlotSpec::Entries(es) = &snap.slots {
        for e in es {
            assert!(e.element_index < n);
        }
    }
}

#[test]
fn component_root_is_rejected() {
    let mut c = compiler(TransformTarget::LEPUS);
    let mut diags = Diagnostics::new();
    let el = JsxElem { name: tag("component"), attrs: vec![], children: vec![] };
    let r = c.compile_root(el, &mut diags);
    assert!(matches!(r, Err(CompileError::DisallowedTag(_))));
    assert_eq!(diags.len(), 1);
    assert_eq!(diags.list[0].level, DiagLevel::Error);
}

#[test]
fn unknown_namespaced_attribute_aborts() {
    let mut c = compiler(TransformTarget::LEPUS);
    let mut diags = Diagnostics::new();
    let el = JsxElem {
        name: tag("view"),
        attrs: vec![AttrOrSpread::Attr(JsxAttr {
            key: AttrKey::Ns("main-thread".to_string(), "foo".to_string()),
            val: expr_val("x"),
        })],
        children: vec![],
    };
    let r = c.compile_root(el, &mut diags);
    match r {
        Err(CompileError::UnknownNamespacedAttr(ns, name)) => {
            assert_eq!(ns, "main-thread");
            assert_eq!(name, "foo");
        },
        other => panic!("expected a namespaced-attribute error, got {:?}", other.is_ok()),
    }
}

/// An attribute from the no-flatten set forces a static `flatten=false`.
#[test]
fn no_flatten_attribute_forces_flatten_false() {
    let el = JsxElem {
        name: tag("view"),
        attrs: vec![attr("name", lit_str("n"))],
        children: vec![],
    };
    let (snap, _) = compile(el);
    let creator = snap.creator.unwrap();
    assert!(creator.iter().any(
        |s| matches!(s, Stmt::SetAttr(0, n, LitKind::Bool(false)) if n == "flatten"),
    ));
    assert!(creator.iter().any(|s| matches!(s, Stmt::SetAttr(0, n, LitKind::Str(v)) if n == "name" && v == "n")));
}

/// The fixed `list-item` attributes are hoisted into one aggregated part.
#[test]
fn list_item_platform_info_is_hoisted() {
    let el = JsxElem {
        name: tag("list-item"),
        attrs: vec![attr("item-key", lit_str("k")), attr("foo", lit_str("bar"))],
        children: vec![],
    };
    let (snap, _) = compile(el);
    let ups = snap.updaters.unwrap();
    assert_eq!(ups.len(), 1);
    assert!(matches!(ups[0], Updater::UpdateListItemPlatformInfo { element_index: 0 }));
    let creator = snap.creator.unwrap();
    assert!(creator.iter().any(|s| matches!(s, Stmt::SetAttr(0, n, _) if n == "foo")));
    assert!(!creator.iter().any(|s| matches!(s, Stmt::SetAttr(_, n, _) if n == "item-key")));
}

/// An event value becomes the sentinel on the LEPUS target and stays live
/// elsewhere.
#[test]
fn event_value_is_stubbed_on_lepus() {
    let el = || JsxElem {
        name: tag("view"),
        attrs: vec![attr("bindtap", expr_val("h"))],
        children: vec![],
    };
    let (snap, _) = compile(el());
    assert!(matches!(snap.values.unwrap()[0], ValueEntry::EventStub));
    match &snap.updaters.unwrap()[0] {
        Updater::Event { element_index, event_type, event_name } => {
            assert_eq!(*element_index, 0);
            assert_eq!(event_type, "bindEvent");
            assert_eq!(event_name, "tap");
        },
        other => panic!("expected an event updater, got {:?}", other),
    }
    let mut c = compiler(TransformTarget::MIXED);
    let mut diags = Diagnostics::new();
    let snap2 = c.compile_root(el(), &mut diags).unwrap();
    assert!(matches!(&snap2.values.unwrap()[0], ValueEntry::Plain(JsExpr::Opaque(h)) if h == "h"));
}

/// A ref value is routed through the runtime's transform.
#[test]
fn ref_value_is_transformed() {
    let el = JsxElem {
        name: tag("view"),
        attrs: vec![attr("ref", expr_val("r"))],
        children: vec![],
    };
    let (snap, _) = compile(el);
    assert!(matches!(&snap.values.unwrap()[0], ValueEntry::TransformRef(JsExpr::Opaque(r)) if r == "r"));
    assert!(matches!(snap.updaters.unwrap()[0], Updater::UpdateRef { element_index: 0 }));
}

/// The JS target carries no creator and no updaters, but keeps the values.
#[test]
fn js_target_has_no_creator() {
    let mut c = compiler(TransformTarget::JS);
    let mut diags = Diagnostics::new();
    let el = JsxElem {
        name: tag("view"),
        attrs: vec![attr("id", expr_val("x"))],
        children: vec![],
    };
    let snap = c.compile_root(el, &mut diags).unwrap();
    assert!(snap.creator.is_none());
    assert!(snap.updaters.is_none());
    assert_eq!(snap.values.unwrap().len(), 1);
    assert_eq!(snap.element_count, 1);
}

/// Whitespace-only children leave no anchor: the whole child list becomes
/// one `Children` part with an empty array payload.
#[test]
fn whitespace_only_children_are_fully_dynamic() {
    let el = JsxElem {
        name: tag("view"),
        attrs: vec![],
        children: vec![JsxChild::Text("  \n  ".to_string())],
    };
    let (snap, _) = compile(el);
    assert!(matches!(snap.slots, SlotSpec::SingleChildren));
    assert!(matches!(&snap.children[0], JsxChild::ExprChild(JsExpr::Arr(es)) if es.is_empty()));
}

/// The marker counts one slot per merged run or fully dynamic element.
#[test]
fn marker_counts_runs() {
    let el = JsxElem {
        name: tag("view"),
        attrs: vec![],
        children: vec![component("A"), plain_elem("text"), component("A")],
    };
    let (_, count) = react_transform::marker::mark_element(el, 0);
    assert_eq!(count, 2);
    let full_dyn = JsxElem {
        name: tag("view"),
        attrs: vec![],
        children: vec![component("A"), component("A")],
    };
    let (marked, count) = react_transform::marker::mark_element(full_dyn, 0);
    assert_eq!(count, 1);
    assert!(react_transform::jsx::jsx_is_internal_slot(&marked));
}

/// A timing-flag attribute travels wrapped in its own object.
#[test]
fn timing_flag_is_wrapped() {
    let el = JsxElem {
        name: tag("view"),
        attrs: vec![attr("__lynx_timing_flag", expr_val("f"))],
        children: vec![],
    };
    let (snap, _) = compile(el);
    assert!(matches!(snap.updaters.unwrap()[0], Updater::SetTimingFlag { element_index: 0, exp_index: 0 }));
    match &snap.values.unwrap()[0] {
        ValueEntry::Plain(JsExpr::Object(o)) => {
            assert!(matches!(&o.props[0], ObjProp::KeyValue(PropKey::Ident(k), _) if k == "__ltf"));
        }
        other => panic!("expected the wrapped flag, got {:?}", other),
    }
}

/// A dataset attribute keeps the rest of its name.
#[test]
fn dataset_attributes_split_name() {
    let el = JsxElem {
        name: tag("view"),
        attrs: vec![
            attr("data-color", lit_str("red")),
            attr("data-size", expr_val("s")),
        ],
        children: vec![],
    };
    let (snap, _) = compile(el);
    let creator = snap.creator.unwrap();
    assert!(creator.iter().any(
        |s| matches!(s, Stmt::AddDataset(0, n, LitKind::Str(v)) if n == "color" && v == "red"),
    ));
    match &snap.updaters.unwrap()[0] {
        Updater::AddDataset { element_index: 0, name, exp_index: 0 } => assert_eq!(name, "size"),
        other => panic!("expected a dataset updater, got {:?}", other),
    }
}

/// Worklet attributes ride their namespace into the updater.
#[test]
fn worklet_attributes_keep_namespace() {
    let el = JsxElem {
        name: tag("view"),
        attrs: vec![AttrOrSpread::Attr(JsxAttr {
            key: AttrKey::Ns("main-thread".to_string(), "bindtap".to_string()),
            val: expr_val("h"),
        })],
        children: vec![],
    };
    let (snap, _) = compile(el);
    match &snap.updaters.unwrap()[0] {
        Updater::WorkletEvent { element_index: 0, worklet_type, event_type, event_name } => {
            assert_eq!(worklet_type, "main-thread");
            assert_eq!(event_type, "bindEvent");
            assert_eq!(event_name, "tap");
        }
        other => panic!("expected a worklet-event updater, got {:?}", other),
    }
}

/// An explicit `flatten` is always respected: the author's value stays
/// and no `flatten=false` is added beside it.
#[test]
fn explicit_flatten_keeps_author_value() {
    let el = JsxElem {
        name: tag("view"),
        attrs: vec![
            attr("name", lit_str("n")),
            attr("flatten", Some(AttrVal::Lit(LitKind::Bool(true)))),
        ],
        children: vec![],
    };
    let (snap, _) = compile(el);
    let creator = snap.creator.unwrap();
    assert!(creator.iter().any(
        |s| matches!(s, Stmt::SetAttr(0, n, LitKind::Bool(true)) if n == "flatten"),
    ));
    assert_eq!(
        creator.iter().filter(|s| matches!(s, Stmt::SetAttr(0, n, _) if n == "flatten")).count(),
        1
    );
}

/// A literal style property stays a static call even after a dynamic one:
/// only the non-literal properties enter the parsed-style block.
#[test]
fn literal_style_after_dynamic_is_still_static() {
    let style_obj = JsExpr::Object(ObjLit {
        props: vec![
            ObjProp::KeyValue(
                PropKey::Ident("width".to_string()),
                JsExpr::Opaque("w".to_string()),
            ),
            ObjProp::KeyValue(
                PropKey::Ident("color".to_string()),
                JsExpr::Lit(LitKind::Str("red".to_string())),
            ),
        ],
    });
    let el = JsxElem {
        name: tag("view"),
        attrs: vec![attr("style", Some(AttrVal::Expr(style_obj)))],
        children: vec![],
    };
    let (snap, _) = compile(el);
    let creator = snap.creator.unwrap();
    assert_eq!(
        creator
            .iter()
            .filter(
                |s| matches!(s, Stmt::AddInlineStyle(0, 22, JsExpr::Lit(LitKind::Str(v))) if v == "red"),
            )
            .count(),
        1
    );
    match &snap.updaters.unwrap()[0] {
        Updater::ParsedStyles { ids, .. } => assert_eq!(ids.as_slice(), &[27]),
        other => panic!("expected a parsed-style updater, got {:?}", other),
    }
}

/// A dynamic `key` forces its element to be an anchor: a keyed builtin
/// splits the surrounding run like any anchor, and its key warns off-root.
#[test]
fn keyed_child_is_never_merged() {
    let el = JsxElem {
        name: tag("view"),
        attrs: vec![],
        children: vec![
            component("A"),
            JsxChild::Elem(JsxElem {
                name: tag("text"),
                attrs: vec![attr("key", expr_val("k"))],
                children: vec![],
            }),
            component("A"),
        ],
    };
    let (snap, diags) = compile(el);
    match &snap.slots {
        SlotSpec::Entries(es) => {
            assert_eq!(es.len(), 2);
            assert!(es.iter().all(|e| e.kind == SlotKind::SlotHere));
        },
        _ => panic!("expected two slot entries"),
    }
    let creator = snap.creator.unwrap();
    assert!(creator.iter().any(|s| matches!(s, Stmt::Create(_, CreateKind::Text))));
    assert_eq!(diags.len(), 1);
    assert_eq!(diags.list[0].message, "key is not on root element of snapshot");
}

/// A keyed component is one independently addressable region of its own.
#[test]
fn keyed_component_is_its_own_region() {
    let el = JsxElem {
        name: tag("view"),
        attrs: vec![],
        children: vec![
            JsxChild::Elem(JsxElem {
                name: ElemName::Component("A".to_string()),
                attrs: vec![attr("key", expr_val("k"))],
                children: vec![],
            }),
            plain_elem("text"),
        ],
    };
    let (snap, _) = compile(el);
    assert!(!snap.self_closing);
    match &snap.slots {
        SlotSpec::Entries(es) => {
            assert_eq!(es.len(), 1);
            assert_eq!(es[0].kind, SlotKind::ChildrenHere);
            assert_eq!(es[0].element_index, 1);
        },
        _ => panic!("expected one children entry"),
    }
    assert_eq!(snap.children.len(), 1);
    assert!(matches!(&snap.children[0], JsxChild::Elem(e) if matches!(&e.name, ElemName::Component(n) if n == "A")));
}

/// A namespaced element name is disabled: it still compiles by its full
/// tag text, with an error diagnostic.
#[test]
fn namespaced_tag_warns_and_compiles() {
    let el = JsxElem { name: tag("svg:rect"), attrs: vec![], children: vec![] };
    let (snap, diags) = compile(el);
    assert_eq!(diags.len(), 1);
    assert_eq!(diags.list[0].level, DiagLevel::Error);
    assert_eq!(diags.list[0].message, "JSX Namespace is disabled");
    let creator = snap.creator.unwrap();
    assert!(creator.iter().any(
        |s| matches!(s, Stmt::Create(0, CreateKind::Named(n)) if n == "svg:rect"),
    ));
}
