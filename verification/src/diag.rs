//! An explicit diagnostics sink, threaded through the compiler so warnings
//! and errors are observable without global state.

use vstd::prelude::*;

verus! {

#[derive(Clone, Copy, PartialEq, Eq, Structural, Debug)]
pub enum DiagLevel {
    Warning,
    Error,
}

#[derive(Debug)]
pub struct Diagnostic {
    pub level: DiagLevel,
    pub message: String,
}

/// Ghost mirror of a diagnostic.
pub struct DiagnosticV {
    pub level: DiagLevel,
    pub message: Seq<char>,
}

pub open spec fn diag_v(d: Diagnostic) -> DiagnosticV {
    DiagnosticV { level: d.level, message: d.message@ }
}

pub open spec fn diag_list_v(ds: Seq<Diagnostic>) -> Seq<DiagnosticV>
    decreases ds,
{
    if ds.len() == 0 {
        Seq::empty()
    } else {
        diag_list_v(ds.drop_last()).push(diag_v(ds.last()))
    }
}

/// A hard error that aborts the snapshot being compiled.
#[derive(Debug)]
pub enum CompileError {
    /// A raw `<component/>` stands at the snapshot root.
    DisallowedTag(String),
    /// A namespaced attribute that is neither a worklet ref, a worklet
    /// event nor a gesture.
    UnknownNamespacedAttr(String, String),
}

/// Ghost mirror of a hard error.
pub enum CompileErrorV {
    DisallowedTag(Seq<char>),
    UnknownNamespacedAttr(Seq<char>, Seq<char>),
}

pub open spec fn err_v(e: CompileError) -> CompileErrorV {
    match e {
        CompileError::DisallowedTag(t) => CompileErrorV::DisallowedTag(t@),
        CompileError::UnknownNamespacedAttr(ns, n) => CompileErrorV::UnknownNamespacedAttr(
            ns@,
            n@,
        ),
    }
}

impl CompileError {
    /// A short description, for the surrounding toolchain to report.
    pub fn describe(&self) -> (r: &'static str)
        ensures
            (self matches CompileError::DisallowedTag(_)) ==> r@
                == "<component /> is not supported"@,
            (self matches CompileError::UnknownNamespacedAttr(_, _)) ==> r@
                == "unsupported namespaced attribute"@,
    {
        match self {
            CompileError::DisallowedTag(_) => "<component /> is not supported",
            CompileError::UnknownNamespacedAttr(_, _) => "unsupported namespaced attribute",
        }
    }
}

pub struct Diagnostics {
    pub list: Vec<Diagnostic>,
}

impl Diagnostics {
    pub open spec fn view(&self) -> Seq<DiagnosticV> {
        diag_list_v(self.list@)
    }

    pub fn new() -> (r: Diagnostics)
        ensures
            r@ == Seq::<DiagnosticV>::empty(),
    {
        let r = Diagnostics { list: Vec::new() };
        proof {
            assert(r@ =~= Seq::<DiagnosticV>::empty());
        }
        r
    }

    pub fn warn(&mut self, message: &str)
        ensures
            final(self)@ == old(self)@.push(
                DiagnosticV { level: DiagLevel::Warning, message: message@ },
            ),
    {
        self.list.push(Diagnostic { level: DiagLevel::Warning, message: String::from_str(message) });
        proof {
            assert(self.list@.drop_last() =~= old(self).list@);
        }
    }

    pub fn error(&mut self, message: &str)
        ensures
            final(self)@ == old(self)@.push(
                DiagnosticV { level: DiagLevel::Error, message: message@ },
            ),
    {
        self.list.push(Diagnostic { level: DiagLevel::Error, message: String::from_str(message) });
        proof {
            assert(self.list@.drop_last() =~= old(self).list@);
        }
    }

    /// How many diagnostics have been collected.
    pub fn len(&self) -> (r: usize)
        ensures
            r == self@.len(),
    {
        proof {
            lemma_diag_list_v_len(self.list@);
        }
        self.list.len()
    }
}

pub proof fn lemma_diag_list_v_len(ds: Seq<Diagnostic>)
    ensures
        diag_list_v(ds).len() == ds.len(),
    decreases ds,
{
    if ds.len() > 0 {
        lemma_diag_list_v_len(ds.drop_last());
    }
}

} // verus!
