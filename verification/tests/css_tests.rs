use react_transform::ast::{JsExpr, LitKind, ObjLit, ObjProp, PropKey};
use react_transform::diag::Diagnostics;
use react_transform::style::{get_inline_style_from_object, CssProperty, CssPropertyTable};

fn table() -> CssPropertyTable {
    let names = [
        ("color", 22u32),
        ("height", 26u32),
        ("width", 27u32),
        ("flex", 49u32),
        ("flex-shrink", 51u32),
        ("flex-direction", 53u32),
    ];
    let mut entries = Vec::new();
    for (name, id) in names {
        entries.push(CssProperty { name: name.to_string(), id });
    }
    CssPropertyTable { entries }
}

fn kv_str(key: &str, value: &str) -> ObjProp {
    ObjProp::KeyValue(
        PropKey::Str(key.to_string()),
        JsExpr::Lit(LitKind::Str(value.to_string())),
    )
}

fn kv_ident_str(key: &str, value: &str) -> ObjProp {
    ObjProp::KeyValue(
        PropKey::Ident(key.to_string()),
        JsExpr::Lit(LitKind::Str(value.to_string())),
    )
}

#[test]
fn test_get_inline_style_from_object() {
    // { width: '200px', 'height': '100px' }
    let object = ObjLit { props: vec![kv_ident_str("width", "200px"), kv_str("height", "100px")] };
    let mut diags = Diagnostics::new();
    let map: Vec<(u32, String)> = get_inline_style_from_object(&table(), object, &mut diags)
        .unwrap()
        .into_iter()
        .filter_map(|sp| match sp.value {
            JsExpr::Lit(LitKind::Str(s)) => Some((sp.id, s)),
            _ => None,
        })
        .collect();
    let target = vec![(27, "200px".to_string()), (26, "100px".to_string())];
    assert_eq!(map, target);
}

#[test]
fn test_get_inline_style_from_object_with_camel() {
    // { flexDirection: 'column', 'flex-shrink': 1 }
    let object = ObjLit {
        props: vec![
            kv_ident_str("flexDirection", "column"),
            ObjProp::KeyValue(
                PropKey::Str("flex-shrink".to_string()),
                JsExpr::Lit(LitKind::Num("1".to_string())),
            ),
        ],
    };
    let mut diags = Diagnostics::new();
    let map: Vec<(u32, String)> = get_inline_style_from_object(&table(), object, &mut diags)
        .unwrap()
        .into_iter()
        .filter_map(|sp| match sp.value {
            JsExpr::Lit(LitKind::Str(s)) => Some((sp.id, s)),
            JsExpr::Lit(LitKind::Num(s)) => Some((sp.id, s)),
            _ => None,
        })
        .collect();
    let target = vec![(53, "column".to_string()), (51, "1".to_string())];
    assert_eq!(map, target);
}

#[test]
fn test_get_inline_style_from_object_with_ident() {
    // { width: w, 'height': h, flex }
    let object = ObjLit {
        props: vec![
            ObjProp::KeyValue(
                PropKey::Ident("width".to_string()),
                JsExpr::Opaque("w".to_string()),
            ),
            ObjProp::KeyValue(
                PropKey::Str("height".to_string()),
                JsExpr::Opaque("h".to_string()),
            ),
            ObjProp::Shorthand("flex".to_string()),
        ],
    };
    let mut diags = Diagnostics::new();
    let map: Vec<(u32, String)> = get_inline_style_from_object(&table(), object, &mut diags)
        .unwrap()
        .into_iter()
        .filter_map(|sp| match sp.value {
            JsExpr::Opaque(s) => Some((sp.id, s)),
            JsExpr::Lit(LitKind::Str(s)) => Some((sp.id, s)),
            _ => None,
        })
        .collect();
    let target = vec![
        (27, "w".to_string()),
        (26, "h".to_string()),
        (49, "flex".to_string()),
    ];
    assert_eq!(map, target);
}

#[test]
fn test_get_inline_style_from_object_with_unknown() {
    // { width: '200px', invalid: false, height: '100px' }
    let object = ObjLit {
        props: vec![
            kv_ident_str("width", "200px"),
            ObjProp::KeyValue(
                PropKey::Ident("invalid".to_string()),
                JsExpr::Lit(LitKind::Bool(false)),
            ),
            kv_ident_str("height", "100px"),
        ],
    };
    let mut diags = Diagnostics::new();
    let r = get_inline_style_from_object(&table(), object, &mut diags);
    assert!(r.is_err());
    assert_eq!(diags.len(), 1);
}

#[test]
fn test_get_inline_style_from_object_with_computed() {
    // { width: '200px', [key]: value, height: '100px' }
    let object = ObjLit {
        props: vec![
            kv_ident_str("width", "200px"),
            ObjProp::KeyValue(
                PropKey::Computed("key".to_string()),
                JsExpr::Opaque("value".to_string()),
            ),
            kv_ident_str("height", "100px"),
        ],
    };
    let mut diags = Diagnostics::new();
    let r = get_inline_style_from_object(&table(), object, &mut diags);
    assert!(r.is_err());
    assert_eq!(diags.len(), 0);
}

#[test]
fn test_get_inline_style_from_object_with_spread() {
    // { width: '200px', ...obj, height: '100px' }
    let object = ObjLit {
        props: vec![
            kv_ident_str("width", "200px"),
            ObjProp::Spread(JsExpr::Opaque("obj".to_string())),
            kv_ident_str("height", "100px"),
        ],
    };
    let mut diags = Diagnostics::new();
    let r = get_inline_style_from_object(&table(), object, &mut diags);
    assert!(r.is_err());
    assert_eq!(diags.len(), 0);
}

#[test]
fn string_style_from_literal_object() {
    // style={{backgroundColor: 'red'}} style strings keep insertion order
    let object = ObjLit {
        props: vec![kv_ident_str("width", "200px"), kv_ident_str("height", "100px")],
    };
    let mut diags = Diagnostics::new();
    let r = react_transform::style::get_string_inline_style_from_literal(
        &JsExpr::Object(object),
        &mut diags,
    );
    assert_eq!(r.unwrap(), "width:200px;height:100px");
}

#[test]
fn string_style_from_unexpected_literal_warns() {
    let mut diags = Diagnostics::new();
    let r = react_transform::style::get_string_inline_style_from_literal(
        &JsExpr::Lit(LitKind::Num("5".to_string())),
        &mut diags,
    );
    assert!(r.is_none());
    assert_eq!(diags.len(), 1);
}
