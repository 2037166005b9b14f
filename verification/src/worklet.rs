//! Worklet classification: which thread a function annotated by a directive
//! runs on.

use vstd::prelude::*;

verus! {

#[derive(Clone, Copy, PartialEq, Eq, Structural, Debug)]
pub enum WorkletType {
    Element,
    UI,
}

impl WorkletType {
    /// Classifies a function directive. Only the two known directives name a
    /// worklet type; everything else is no worklet.
    pub fn from_directive(directive: &String) -> (r: Option<WorkletType>)
        ensures
            r == Option::<WorkletType>::Some(WorkletType::Element) <==> directive@
                == "main thread"@,
            r == Option::<WorkletType>::Some(WorkletType::UI) <==> directive@ == "use worklet"@,
            r is None <==> (directive@ != "main thread"@ && directive@ != "use worklet"@),
    {
        proof {
            reveal_strlit("main thread");
            reveal_strlit("use worklet");
            assert("main thread"@[0] != "use worklet"@[0]);
            assert("main thread"@ != "use worklet"@);
        }
        if *directive == String::from_str("main thread") {
            Option::Some(WorkletType::Element)
        } else if *directive == String::from_str("use worklet") {
            Option::Some(WorkletType::UI)
        } else {
            Option::None
        }
    }

    /// The attribute-namespace spelling of the worklet type.
    pub fn type_str(&self) -> (r: &'static str)
        ensures
            *self == WorkletType::Element ==> r@ == "main-thread"@,
            *self == WorkletType::UI ==> r@ == "ui"@,
    {
        match self {
            WorkletType::Element => "main-thread",
            WorkletType::UI => "ui",
        }
    }
}

} // verus!
