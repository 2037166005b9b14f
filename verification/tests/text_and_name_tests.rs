use react_transform::attr_name::AttrName;
use react_transform::hashes::{build_uid, calc_hash, u32_to_string, WorkletHash};
use react_transform::text::{jsx_text_to_str, transform_jsx_attr_str};
use react_transform::worklet::WorkletType;

#[test]
fn text_norm_keeps_single_line() {
    assert_eq!(jsx_text_to_str("  hi  "), "  hi  ");
    assert_eq!(jsx_text_to_str("hello"), "hello");
}

#[test]
fn text_norm_joins_lines() {
    assert_eq!(jsx_text_to_str("a\n   b"), "a b");
    assert_eq!(jsx_text_to_str("  a  \n   b\n   c  "), "  a b c  ");
    assert_eq!(jsx_text_to_str("\n   \n"), "");
    assert_eq!(jsx_text_to_str("\n  hello  \n"), "hello  ");
}

#[test]
fn text_norm_maps_tabs() {
    assert_eq!(jsx_text_to_str("a\tb"), "a\u{20}b");
    assert_eq!(jsx_text_to_str("x\r\ny"), "x y");
}

#[test]
fn attr_str_collapses_whitespace() {
    assert_eq!(transform_jsx_attr_str("a\n   b"), "a b");
    assert_eq!(transform_jsx_attr_str("a\t\u{20}b"), "a b");
    assert_eq!(transform_jsx_attr_str("plain"), "plain");
}

#[test]
fn attr_str_escapes_controls() {
    assert_eq!(transform_jsx_attr_str("a\u{0008}"), "a\\b");
    assert_eq!(transform_jsx_attr_str("a\u{000c}b"), "a\\fb");
    assert_eq!(transform_jsx_attr_str("a\u{000b}"), "a\\v");
    assert_eq!(transform_jsx_attr_str("a\0"), "a\\x00");
}

#[test]
fn classify_plain_names() {
    assert!(matches!(AttrName::classify("data-foo".to_string()), AttrName::Dataset(n) if n == "foo"));
    assert!(matches!(AttrName::classify("class".to_string()), AttrName::Class));
    assert!(matches!(AttrName::classify("className".to_string()), AttrName::Class));
    assert!(matches!(AttrName::classify("style".to_string()), AttrName::Style));
    assert!(matches!(AttrName::classify("id".to_string()), AttrName::ID));
    assert!(matches!(AttrName::classify("ref".to_string()), AttrName::Ref));
    assert!(matches!(
        AttrName::classify("__lynx_timing_flag".to_string()),
        AttrName::TimingFlag
    ));
    assert!(matches!(AttrName::classify("src".to_string()), AttrName::Attr(n) if n == "src"));
}

#[test]
fn classify_event_names() {
    assert!(matches!(
        AttrName::classify("bindtap".to_string()),
        AttrName::Event(t, n) if t == "bindEvent" && n == "tap"
    ));
    assert!(matches!(
        AttrName::classify("catchtap".to_string()),
        AttrName::Event(t, n) if t == "catchEvent" && n == "tap"
    ));
    assert!(matches!(
        AttrName::classify("global-bindtap".to_string()),
        AttrName::Event(t, n) if t == "global-bindEvent" && n == "tap"
    ));
    assert!(matches!(
        AttrName::classify("capture-bindtap".to_string()),
        AttrName::Event(t, n) if t == "capture-bind" && n == "tap"
    ));
    assert!(matches!(
        AttrName::classify("capture-catchtap".to_string()),
        AttrName::Event(t, n) if t == "capture-catch" && n == "tap"
    ));
    // the rest after the prefix must be letters
    assert!(matches!(AttrName::classify("bind-tap".to_string()), AttrName::Attr(_)));
    assert!(matches!(AttrName::classify("bind".to_string()), AttrName::Attr(_)));
    // data- wins over the event pattern
    assert!(matches!(AttrName::classify("data-bindtap".to_string()), AttrName::Dataset(_)));
}

#[test]
fn classify_namespaced_names() {
    assert!(matches!(
        AttrName::from_ns("main-thread".to_string(), "ref".to_string()),
        Ok(AttrName::WorkletRef(w)) if w == "main-thread"
    ));
    assert!(matches!(
        AttrName::from_ns("main-thread".to_string(), "bindtap".to_string()),
        Ok(AttrName::WorkletEvent(w, t, n)) if w == "main-thread" && t == "bindEvent" && n == "tap"
    ));
    assert!(matches!(
        AttrName::from_ns("main-thread".to_string(), "gesture".to_string()),
        Ok(AttrName::Gesture(w)) if w == "main-thread"
    ));
    assert!(AttrName::from_ns("main-thread".to_string(), "foo".to_string()).is_err());
}

#[test]
fn hashes_and_uids() {
    assert_eq!(calc_hash("test.jsx"), "d3dd9");
    assert_eq!(u32_to_string(0), "0");
    assert_eq!(u32_to_string(120), "120");
    assert_eq!(
        build_uid(&"d3dd9".to_string(), &"test".to_string(), 3),
        "__snapshot_d3dd9_test_3"
    );
}

#[test]
fn worklet_hash_counts_up() {
    let mut wh = WorkletHash::new();
    let file = "a.js".to_string();
    let content = "test".to_string();
    assert_eq!(wh.gen(&file, &content), "1958:test:1");
    assert_eq!(wh.gen(&file, &content), "1958:test:2");
}

#[test]
fn worklet_type_from_directive() {
    assert!(matches!(
        WorkletType::from_directive(&"main thread".to_string()),
        Some(WorkletType::Element)
    ));
    assert!(matches!(
        WorkletType::from_directive(&"use worklet".to_string()),
        Some(WorkletType::UI)
    ));
    assert!(WorkletType::from_directive(&"use strict".to_string()).is_none());
    assert_eq!(WorkletType::Element.type_str(), "main-thread");
    assert_eq!(WorkletType::UI.type_str(), "ui");
}
