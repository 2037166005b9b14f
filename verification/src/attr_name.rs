//! Classification of attribute names. Exactly one classification per
//! physical attribute, computed from its name (and namespace) alone,
//! first match wins.

use vstd::prelude::*;

use crate::diag::{err_v, CompileError, CompileErrorV};
use crate::strutil::{all_alpha_v, starts_with_v, str_all_alpha, str_eq, str_starts_with};

verus! {

/// What an attribute means to the runtime.
#[derive(Debug)]
pub enum AttrName {
    /// A plain attribute, set by name.
    Attr(String),
    /// `data-*`, with the rest of the name.
    Dataset(String),
    /// An event binding: (event type, event name).
    Event(String, String),
    /// A worklet event binding: (worklet type, event type, event name).
    WorkletEvent(String, String, String),
    /// The `style` attribute.
    Style,
    /// A decomposed style object: the ids of the non-literal properties, in
    /// source order. Their value expressions travel in the dynamic part's
    /// payload, as an array in the same order.
    ParsedStyle(Vec<u32>),
    /// `class` / `className`.
    Class,
    /// `id`.
    ID,
    /// `ref`.
    Ref,
    /// `__lynx_timing_flag`.
    TimingFlag,
    /// A namespaced `ref`, with the worklet type.
    WorkletRef(String),
    /// The aggregated platform info of a `list-item`.
    ListItemPlatformInfo,
    /// A namespaced `gesture`, with the worklet type.
    Gesture(String),
}

/// Ghost mirror of an attribute classification.
pub enum AttrNameV {
    Attr(Seq<char>),
    Dataset(Seq<char>),
    Event(Seq<char>, Seq<char>),
    WorkletEvent(Seq<char>, Seq<char>, Seq<char>),
    Style,
    ParsedStyle(Seq<u32>),
    Class,
    ID,
    Ref,
    TimingFlag,
    WorkletRef(Seq<char>),
    ListItemPlatformInfo,
    Gesture(Seq<char>),
}

pub open spec fn attr_name_v(a: AttrName) -> AttrNameV {
    match a {
        AttrName::Attr(s) => AttrNameV::Attr(s@),
        AttrName::Dataset(s) => AttrNameV::Dataset(s@),
        AttrName::Event(t, n) => AttrNameV::Event(t@, n@),
        AttrName::WorkletEvent(w, t, n) => AttrNameV::WorkletEvent(w@, t@, n@),
        AttrName::Style => AttrNameV::Style,
        AttrName::ParsedStyle(ids) => AttrNameV::ParsedStyle(ids@),
        AttrName::Class => AttrNameV::Class,
        AttrName::ID => AttrNameV::ID,
        AttrName::Ref => AttrNameV::Ref,
        AttrName::TimingFlag => AttrNameV::TimingFlag,
        AttrName::WorkletRef(s) => AttrNameV::WorkletRef(s@),
        AttrName::ListItemPlatformInfo => AttrNameV::ListItemPlatformInfo,
        AttrName::Gesture(s) => AttrNameV::Gesture(s@),
    }
}

/// The event prefixes, tried in order; at most one can prefix a given name.
/// The rest after the prefix must be one or more ASCII letters. The event
/// type keeps a `capture-*` prefix as is and appends `Event` to the others.
pub open spec fn event_of_v(name: Seq<char>) -> Option<(Seq<char>, Seq<char>)> {
    if starts_with_v(name, "global-bind"@) && event_rest_ok(name, 11) {
        Option::Some(("global-bindEvent"@, name.skip(11)))
    } else if starts_with_v(name, "bind"@) && event_rest_ok(name, 4) {
        Option::Some(("bindEvent"@, name.skip(4)))
    } else if starts_with_v(name, "catch"@) && event_rest_ok(name, 5) {
        Option::Some(("catchEvent"@, name.skip(5)))
    } else if starts_with_v(name, "capture-bind"@) && event_rest_ok(name, 12) {
        Option::Some(("capture-bind"@, name.skip(12)))
    } else if starts_with_v(name, "capture-catch"@) && event_rest_ok(name, 13) {
        Option::Some(("capture-catch"@, name.skip(13)))
    } else {
        Option::None
    }
}

pub open spec fn event_rest_ok(name: Seq<char>, k: int) -> bool {
    name.len() > k && all_alpha_v(name.skip(k))
}

proof fn lemma_starts_with_char(s: Seq<char>, p: Seq<char>, i: int)
    requires
        starts_with_v(s, p),
        0 <= i < p.len(),
    ensures
        s[i] == p[i],
{
    assert(s.subrange(0, p.len() as int)[i] == s[i]);
}

/// No attribute name starts with two different event prefixes.
proof fn lemma_event_prefixes_disjoint(s: Seq<char>)
    ensures
        starts_with_v(s, "global-bind"@) ==> !starts_with_v(s, "bind"@) && !starts_with_v(
            s,
            "catch"@,
        ) && !starts_with_v(s, "capture-bind"@) && !starts_with_v(s, "capture-catch"@),
        starts_with_v(s, "bind"@) ==> !starts_with_v(s, "catch"@) && !starts_with_v(
            s,
            "capture-bind"@,
        ) && !starts_with_v(s, "capture-catch"@),
        starts_with_v(s, "catch"@) ==> !starts_with_v(s, "capture-bind"@) && !starts_with_v(
            s,
            "capture-catch"@,
        ),
        starts_with_v(s, "capture-bind"@) ==> !starts_with_v(s, "capture-catch"@),
{
    reveal_strlit("global-bind");
    reveal_strlit("bind");
    reveal_strlit("catch");
    reveal_strlit("capture-bind");
    reveal_strlit("capture-catch");
    if starts_with_v(s, "global-bind"@) {
        lemma_starts_with_char(s, "global-bind"@, 0);
        if starts_with_v(s, "bind"@) {
            lemma_starts_with_char(s, "bind"@, 0);
        }
        if starts_with_v(s, "catch"@) {
            lemma_starts_with_char(s, "catch"@, 0);
        }
        if starts_with_v(s, "capture-bind"@) {
            lemma_starts_with_char(s, "capture-bind"@, 0);
        }
        if starts_with_v(s, "capture-catch"@) {
            lemma_starts_with_char(s, "capture-catch"@, 0);
        }
    }
    if starts_with_v(s, "bind"@) {
        lemma_starts_with_char(s, "bind"@, 0);
        if starts_with_v(s, "catch"@) {
            lemma_starts_with_char(s, "catch"@, 0);
        }
        if starts_with_v(s, "capture-bind"@) {
            lemma_starts_with_char(s, "capture-bind"@, 0);
        }
        if starts_with_v(s, "capture-catch"@) {
            lemma_starts_with_char(s, "capture-catch"@, 0);
        }
    }
    if starts_with_v(s, "catch"@) {
        lemma_starts_with_char(s, "catch"@, 2);
        if starts_with_v(s, "capture-bind"@) {
            lemma_starts_with_char(s, "capture-bind"@, 2);
        }
        if starts_with_v(s, "capture-catch"@) {
            lemma_starts_with_char(s, "capture-catch"@, 2);
        }
    }
    if starts_with_v(s, "capture-bind"@) {
        lemma_starts_with_char(s, "capture-bind"@, 8);
        if starts_with_v(s, "capture-catch"@) {
            lemma_starts_with_char(s, "capture-catch"@, 8);
        }
    }
}

/// Splits an event attribute name into event type and event name, if the
/// name is an event binding.
pub fn event_of(name: &str) -> (r: Option<(String, String)>)
    ensures
        match r {
            Option::Some((t, n)) => event_of_v(name@) == Option::Some((t@, n@)),
            Option::None => event_of_v(name@) is None,
        },
{
    proof {
        reveal_strlit("global-bind");
        reveal_strlit("bind");
        reveal_strlit("catch");
        reveal_strlit("capture-bind");
        reveal_strlit("capture-catch");
        lemma_event_prefixes_disjoint(name@);
    }
    if str_starts_with(name, "global-bind") {
        event_tail(name, 11, "global-bindEvent")
    } else if str_starts_with(name, "bind") {
        event_tail(name, 4, "bindEvent")
    } else if str_starts_with(name, "catch") {
        event_tail(name, 5, "catchEvent")
    } else if str_starts_with(name, "capture-bind") {
        event_tail(name, 12, "capture-bind")
    } else if str_starts_with(name, "capture-catch") {
        event_tail(name, 13, "capture-catch")
    } else {
        Option::None
    }
}

/// The rest of `name` after a matched prefix of length `k`, paired with the
/// already-chosen event type, if the rest is one or more letters.
fn event_tail(name: &str, k: usize, event_type: &str) -> (r: Option<(String, String)>)
    requires
        k <= name@.len(),
    ensures
        match r {
            Option::Some((t, n)) => event_rest_ok(name@, k as int) && t@ == event_type@ && n@
                == name@.skip(k as int),
            Option::None => !event_rest_ok(name@, k as int),
        },
{
    let len = name.unicode_len();
    if len <= k {
        return Option::None;
    }
    let rest = name.substring_char(k, len);
    proof {
        assert(rest@ =~= name@.skip(k as int));
    }
    if str_all_alpha(rest) {
        Option::Some((String::from_str(event_type), rest.to_owned()))
    } else {
        Option::None
    }
}

/// The classification of a plain (non-namespaced) attribute name.
pub open spec fn classify_v(name: Seq<char>) -> AttrNameV {
    if starts_with_v(name, "data-"@) {
        AttrNameV::Dataset(name.skip(5))
    } else if name == "class"@ || name == "className"@ {
        AttrNameV::Class
    } else if name == "style"@ {
        AttrNameV::Style
    } else if name == "id"@ {
        AttrNameV::ID
    } else if name == "ref"@ {
        AttrNameV::Ref
    } else if name == "__lynx_timing_flag"@ {
        AttrNameV::TimingFlag
    } else if event_of_v(name) is Some {
        AttrNameV::Event(event_of_v(name).unwrap().0, event_of_v(name).unwrap().1)
    } else {
        AttrNameV::Attr(name)
    }
}

/// The classification of a namespaced attribute name: only worklet refs,
/// worklet events and gestures are recognized; anything else is a hard
/// error.
pub open spec fn classify_ns_v(ns: Seq<char>, name: Seq<char>) -> Result<
    AttrNameV,
    CompileErrorV,
> {
    if name == "ref"@ {
        Result::Ok(AttrNameV::WorkletRef(ns))
    } else if event_of_v(name) is Some {
        Result::Ok(
            AttrNameV::WorkletEvent(ns, event_of_v(name).unwrap().0, event_of_v(name).unwrap().1),
        )
    } else if name == "gesture"@ {
        Result::Ok(AttrNameV::Gesture(ns))
    } else {
        Result::Err(CompileErrorV::UnknownNamespacedAttr(ns, name))
    }
}

impl AttrName {
    /// Classifies a plain attribute name, first match wins.
    pub fn classify(name: String) -> (r: AttrName)
        ensures
            attr_name_v(r) == classify_v(name@),
    {
        if str_starts_with(name.as_str(), "data-") {
            proof {
                reveal_strlit("data-");
            }
            let len = name.as_str().unicode_len();
            let rest = name.as_str().substring_char(5, len);
            proof {
                assert(rest@ =~= name@.skip(5));
            }
            AttrName::Dataset(rest.to_owned())
        } else if str_eq(&name, "class") || str_eq(&name, "className") {
            AttrName::Class
        } else if str_eq(&name, "style") {
            AttrName::Style
        } else if str_eq(&name, "id") {
            AttrName::ID
        } else if str_eq(&name, "ref") {
            AttrName::Ref
        } else if str_eq(&name, "__lynx_timing_flag") {
            AttrName::TimingFlag
        } else {
            match event_of(name.as_str()) {
                Option::Some((t, n)) => AttrName::Event(t, n),
                Option::None => AttrName::Attr(name),
            }
        }
    }

    /// Classifies a namespaced attribute name.
    pub fn from_ns(ns: String, name: String) -> (r: Result<AttrName, CompileError>)
        ensures
            match r {
                Result::Ok(a) => classify_ns_v(ns@, name@) == Result::<
                    AttrNameV,
                    CompileErrorV,
                >::Ok(attr_name_v(a)),
                Result::Err(e) => classify_ns_v(ns@, name@) == Result::<
                    AttrNameV,
                    CompileErrorV,
                >::Err(err_v(e)),
            },
    {
        if str_eq(&name, "ref") {
            Result::Ok(AttrName::WorkletRef(ns))
        } else {
            match event_of(name.as_str()) {
                Option::Some((t, n)) => Result::Ok(AttrName::WorkletEvent(ns, t, n)),
                Option::None => {
                    if str_eq(&name, "gesture") {
                        Result::Ok(AttrName::Gesture(ns))
                    } else {
                        Result::Err(CompileError::UnknownNamespacedAttr(ns, name))
                    }
                },
            }
        }
    }
}

} // verus!
