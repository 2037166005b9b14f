//! What the compiler emits: the static construction program, the dynamic
//! parts, the per-target update closures, and the assembled snapshot.

use vstd::prelude::*;

use crate::ast::{
    elem_v, expr_v, lit_v, obj_v, AttrVal, AttrValV, JsExpr, JsExprV, JsxChild, JsxChildV,
    JsxElem, JsxElemV, LitKind, LitKindV, ObjLit, ObjLitV, attr_val_v,
};
use crate::attr_name::{attr_name_v, AttrName, AttrNameV};

verus! {

// ---------------------------------------------------------------------------
// The static construction program.
// ---------------------------------------------------------------------------

/// How one element of the snapshot is created. Elements are addressed by
/// their index in the creator's output array.
#[derive(Debug)]
pub enum CreateKind {
    View,
    ScrollView,
    XScrollView,
    Image,
    Text,
    Wrapper,
    /// A `list` element; its creation call also receives the snapshot
    /// instance and this element's index.
    List,
    /// An unrecognized lowercase tag, created by name.
    Named(String),
    /// A raw text node with the normalized text.
    RawText(String),
}

pub enum CreateKindV {
    View,
    ScrollView,
    XScrollView,
    Image,
    Text,
    Wrapper,
    List,
    Named(Seq<char>),
    RawText(Seq<char>),
}

pub open spec fn create_kind_v(k: CreateKind) -> CreateKindV {
    match k {
        CreateKind::View => CreateKindV::View,
        CreateKind::ScrollView => CreateKindV::ScrollView,
        CreateKind::XScrollView => CreateKindV::XScrollView,
        CreateKind::Image => CreateKindV::Image,
        CreateKind::Text => CreateKindV::Text,
        CreateKind::Wrapper => CreateKindV::Wrapper,
        CreateKind::List => CreateKindV::List,
        CreateKind::Named(s) => CreateKindV::Named(s@),
        CreateKind::RawText(s) => CreateKindV::RawText(s@),
    }
}

/// One statement of the creator function.
#[derive(Debug)]
pub enum Stmt {
    /// `const pageId = runtime.__pageId`, once, before the first element.
    DeclarePageId,
    Create(usize, CreateKind),
    SetAttr(usize, String, LitKind),
    AddDataset(usize, String, LitKind),
    SetInlineStyles(usize, LitKind),
    AddInlineStyle(usize, u32, JsExpr),
    SetClasses(usize, LitKind),
    SetId(usize, LitKind),
    /// `__AppendElement(parent, child)`.
    Append(usize, usize),
    /// Returns the handle array, in element-index order.
    ReturnElements,
}

pub enum StmtV {
    DeclarePageId,
    Create(int, CreateKindV),
    SetAttr(int, Seq<char>, LitKindV),
    AddDataset(int, Seq<char>, LitKindV),
    SetInlineStyles(int, LitKindV),
    AddInlineStyle(int, u32, JsExprV),
    SetClasses(int, LitKindV),
    SetId(int, LitKindV),
    Append(int, int),
    ReturnElements,
}

pub open spec fn stmt_v(s: Stmt) -> StmtV {
    match s {
        Stmt::DeclarePageId => StmtV::DeclarePageId,
        Stmt::Create(i, k) => StmtV::Create(i as int, create_kind_v(k)),
        Stmt::SetAttr(i, n, l) => StmtV::SetAttr(i as int, n@, lit_v(l)),
        Stmt::AddDataset(i, n, l) => StmtV::AddDataset(i as int, n@, lit_v(l)),
        Stmt::SetInlineStyles(i, l) => StmtV::SetInlineStyles(i as int, lit_v(l)),
        Stmt::AddInlineStyle(i, p, e) => StmtV::AddInlineStyle(i as int, p, expr_v(e)),
        Stmt::SetClasses(i, l) => StmtV::SetClasses(i as int, lit_v(l)),
        Stmt::SetId(i, l) => StmtV::SetId(i as int, lit_v(l)),
        Stmt::Append(p, c) => StmtV::Append(p as int, c as int),
        Stmt::ReturnElements => StmtV::ReturnElements,
    }
}

pub open spec fn stmts_v(ss: Seq<Stmt>) -> Seq<StmtV>
    decreases ss,
{
    if ss.len() == 0 {
        Seq::empty()
    } else {
        stmts_v(ss.drop_last()).push(stmt_v(ss.last()))
    }
}

pub proof fn lemma_stmts_v(ss: Seq<Stmt>)
    ensures
        stmts_v(ss).len() == ss.len(),
        forall|j: int| 0 <= j < ss.len() ==> stmts_v(ss)[j] == stmt_v(#[trigger] ss[j]),
    decreases ss,
{
    if ss.len() > 0 {
        lemma_stmts_v(ss.drop_last());
        assert forall|j: int| 0 <= j < ss.len() implies stmts_v(ss)[j] == stmt_v(
            #[trigger] ss[j],
        ) by {
            if j < ss.len() - 1 {
                assert(stmts_v(ss)[j] == stmts_v(ss.drop_last())[j]);
                assert(ss.drop_last()[j] == ss[j]);
            }
        }
    }
}

// ---------------------------------------------------------------------------
// Dynamic parts.
// ---------------------------------------------------------------------------

/// A runtime-patchable part, extracted in document order.
#[derive(Debug)]
pub enum DynamicPart {
    /// An attribute whose value is recomputed per instantiation.
    Attr(JsExpr, usize, AttrName),
    /// All attributes of an element that uses attribute spread, as one
    /// object.
    Spread(ObjLit, usize),
    /// A merged run of sibling children, recomputed as one opaque unit.
    Slot(JsxElem, usize),
    /// The whole child list of a fully dynamic element.
    Children(JsExpr, usize),
    /// The child list of a `list` element.
    ListChildren(JsExpr, usize),
}

pub enum DynamicPartV {
    Attr(JsExprV, int, AttrNameV),
    Spread(ObjLitV, int),
    Slot(JsxElemV, int),
    Children(JsExprV, int),
    ListChildren(JsExprV, int),
}

pub open spec fn part_v(p: DynamicPart) -> DynamicPartV {
    match p {
        DynamicPart::Attr(e, i, n) => DynamicPartV::Attr(expr_v(e), i as int, attr_name_v(n)),
        DynamicPart::Spread(o, i) => DynamicPartV::Spread(obj_v(o), i as int),
        DynamicPart::Slot(el, i) => DynamicPartV::Slot(elem_v(el), i as int),
        DynamicPart::Children(e, i) => DynamicPartV::Children(expr_v(e), i as int),
        DynamicPart::ListChildren(e, i) => DynamicPartV::ListChildren(expr_v(e), i as int),
    }
}

pub open spec fn parts_v(ps: Seq<DynamicPart>) -> Seq<DynamicPartV>
    decreases ps,
{
    if ps.len() == 0 {
        Seq::empty()
    } else {
        parts_v(ps.drop_last()).push(part_v(ps.last()))
    }
}

pub proof fn lemma_parts_v(ps: Seq<DynamicPart>)
    ensures
        parts_v(ps).len() == ps.len(),
        forall|j: int| 0 <= j < ps.len() ==> parts_v(ps)[j] == part_v(#[trigger] ps[j]),
    decreases ps,
{
    if ps.len() > 0 {
        lemma_parts_v(ps.drop_last());
        assert forall|j: int| 0 <= j < ps.len() implies parts_v(ps)[j] == part_v(
            #[trigger] ps[j],
        ) by {
            if j < ps.len() - 1 {
                assert(parts_v(ps)[j] == parts_v(ps.drop_last())[j]);
                assert(ps.drop_last()[j] == ps[j]);
            }
        }
    }
}

/// The element index a part refers to.
pub open spec fn part_index_v(p: DynamicPartV) -> int {
    match p {
        DynamicPartV::Attr(_, i, _) => i,
        DynamicPartV::Spread(_, i) => i,
        DynamicPartV::Slot(_, i) => i,
        DynamicPartV::Children(_, i) => i,
        DynamicPartV::ListChildren(_, i) => i,
    }
}

/// Whether a part is attribute-like (it receives an updater and a value
/// slot) rather than structural.
pub open spec fn part_is_attr_like_v(p: DynamicPartV) -> bool {
    match p {
        DynamicPartV::Attr(_, _, _) => true,
        DynamicPartV::Spread(_, _) => true,
        DynamicPartV::Slot(_, _) => false,
        DynamicPartV::Children(_, _) => false,
        DynamicPartV::ListChildren(_, _) => false,
    }
}

// ---------------------------------------------------------------------------
// Updaters, values and slot descriptors.
// ---------------------------------------------------------------------------

/// The update closure of one attribute-like part, for the LEPUS and MIXED
/// targets. `exp_index` is the part's position in the values array.
#[derive(Debug)]
pub enum Updater {
    SetAttr { element_index: usize, name: String, exp_index: usize },
    SetTimingFlag { element_index: usize, exp_index: usize },
    AddDataset { element_index: usize, name: String, exp_index: usize },
    SetInlineStyles { element_index: usize, exp_index: usize },
    /// Applies each enclosed property id to the matching entry of the
    /// part's value array.
    ParsedStyles { element_index: usize, exp_index: usize, ids: Vec<u32> },
    SetClasses { element_index: usize, exp_index: usize },
    SetId { element_index: usize, exp_index: usize },
    Event { element_index: usize, event_type: String, event_name: String },
    WorkletEvent {
        element_index: usize,
        worklet_type: String,
        event_type: String,
        event_name: String,
    },
    UpdateRef { element_index: usize },
    UpdateWorkletRef { element_index: usize, worklet_type: String },
    UpdateListItemPlatformInfo { element_index: usize },
    UpdateGesture { element_index: usize, worklet_type: String },
    UpdateSpread { element_index: usize },
}

pub enum UpdaterV {
    SetAttr { element_index: int, name: Seq<char>, exp_index: int },
    SetTimingFlag { element_index: int, exp_index: int },
    AddDataset { element_index: int, name: Seq<char>, exp_index: int },
    SetInlineStyles { element_index: int, exp_index: int },
    ParsedStyles { element_index: int, exp_index: int, ids: Seq<u32> },
    SetClasses { element_index: int, exp_index: int },
    SetId { element_index: int, exp_index: int },
    Event { element_index: int, event_type: Seq<char>, event_name: Seq<char> },
    WorkletEvent {
        element_index: int,
        worklet_type: Seq<char>,
        event_type: Seq<char>,
        event_name: Seq<char>,
    },
    UpdateRef { element_index: int },
    UpdateWorkletRef { element_index: int, worklet_type: Seq<char> },
    UpdateListItemPlatformInfo { element_index: int },
    UpdateGesture { element_index: int, worklet_type: Seq<char> },
    UpdateSpread { element_index: int },
}

pub open spec fn updater_v(u: Updater) -> UpdaterV {
    match u {
        Updater::SetAttr { element_index, name, exp_index } => UpdaterV::SetAttr {
            element_index: element_index as int,
            name: name@,
            exp_index: exp_index as int,
        },
        Updater::SetTimingFlag { element_index, exp_index } => UpdaterV::SetTimingFlag {
            element_index: element_index as int,
            exp_index: exp_index as int,
        },
        Updater::AddDataset { element_index, name, exp_index } => UpdaterV::AddDataset {
            element_index: element_index as int,
            name: name@,
            exp_index: exp_index as int,
        },
        Updater::SetInlineStyles { element_index, exp_index } => UpdaterV::SetInlineStyles {
            element_index: element_index as int,
            exp_index: exp_index as int,
        },
        Updater::ParsedStyles { element_index, exp_index, ids } => UpdaterV::ParsedStyles {
            element_index: element_index as int,
            exp_index: exp_index as int,
            ids: ids@,
        },
        Updater::SetClasses { element_index, exp_index } => UpdaterV::SetClasses {
            element_index: element_index as int,
            exp_index: exp_index as int,
        },
        Updater::SetId { element_index, exp_index } => UpdaterV::SetId {
            element_index: element_index as int,
            exp_index: exp_index as int,
        },
        Updater::Event { element_index, event_type, event_name } => UpdaterV::Event {
            element_index: element_index as int,
            event_type: event_type@,
            event_name: event_name@,
        },
        Updater::WorkletEvent { element_index, worklet_type, event_type, event_name } => UpdaterV::WorkletEvent {
            element_index: element_index as int,
            worklet_type: worklet_type@,
            event_type: event_type@,
            event_name: event_name@,
        },
        Updater::UpdateRef { element_index } => UpdaterV::UpdateRef {
            element_index: element_index as int,
        },
        Updater::UpdateWorkletRef { element_index, worklet_type } => UpdaterV::UpdateWorkletRef {
            element_index: element_index as int,
            worklet_type: worklet_type@,
        },
        Updater::UpdateListItemPlatformInfo { element_index } => UpdaterV::UpdateListItemPlatformInfo {
            element_index: element_index as int,
        },
        Updater::UpdateGesture { element_index, worklet_type } => UpdaterV::UpdateGesture {
            element_index: element_index as int,
            worklet_type: worklet_type@,
        },
        Updater::UpdateSpread { element_index } => UpdaterV::UpdateSpread {
            element_index: element_index as int,
        },
    }
}

pub open spec fn updaters_v(us: Seq<Updater>) -> Seq<UpdaterV>
    decreases us,
{
    if us.len() == 0 {
        Seq::empty()
    } else {
        updaters_v(us.drop_last()).push(updater_v(us.last()))
    }
}

pub proof fn lemma_updaters_v(us: Seq<Updater>)
    ensures
        updaters_v(us).len() == us.len(),
        forall|j: int| 0 <= j < us.len() ==> updaters_v(us)[j] == updater_v(#[trigger] us[j]),
    decreases us,
{
    if us.len() > 0 {
        lemma_updaters_v(us.drop_last());
        assert forall|j: int| 0 <= j < us.len() implies updaters_v(us)[j] == updater_v(
            #[trigger] us[j],
        ) by {
            if j < us.len() - 1 {
                assert(updaters_v(us)[j] == updaters_v(us.drop_last())[j]);
                assert(us.drop_last()[j] == us[j]);
            }
        }
    }
}

/// One entry of the values array handed to each instantiation.
#[derive(Debug)]
pub enum ValueEntry {
    /// The part's expression, as written.
    Plain(JsExpr),
    /// The sentinel `1` standing for an event handler on the LEPUS target.
    EventStub,
    /// A ref value routed through the runtime's `transformRef`.
    TransformRef(JsExpr),
}

pub enum ValueEntryV {
    Plain(JsExprV),
    EventStub,
    TransformRef(JsExprV),
}

pub open spec fn value_entry_v(v: ValueEntry) -> ValueEntryV {
    match v {
        ValueEntry::Plain(e) => ValueEntryV::Plain(expr_v(e)),
        ValueEntry::EventStub => ValueEntryV::EventStub,
        ValueEntry::TransformRef(e) => ValueEntryV::TransformRef(expr_v(e)),
    }
}

pub open spec fn values_v(vs: Seq<ValueEntry>) -> Seq<ValueEntryV>
    decreases vs,
{
    if vs.len() == 0 {
        Seq::empty()
    } else {
        values_v(vs.drop_last()).push(value_entry_v(vs.last()))
    }
}

pub proof fn lemma_values_v(vs: Seq<ValueEntry>)
    ensures
        values_v(vs).len() == vs.len(),
        forall|j: int| 0 <= j < vs.len() ==> values_v(vs)[j] == value_entry_v(#[trigger] vs[j]),
    decreases vs,
{
    if vs.len() > 0 {
        lemma_values_v(vs.drop_last());
        assert forall|j: int| 0 <= j < vs.len() implies values_v(vs)[j] == value_entry_v(
            #[trigger] vs[j],
        ) by {
            if j < vs.len() - 1 {
                assert(values_v(vs)[j] == values_v(vs.drop_last())[j]);
                assert(vs.drop_last()[j] == vs[j]);
            }
        }
    }
}

/// What kind of structural part a slot descriptor entry names.
#[derive(Clone, Copy, PartialEq, Eq, Structural, Debug)]
pub enum SlotKind {
    SlotHere,
    ChildrenHere,
    ListChildrenHere,
}

#[derive(Debug)]
pub struct SlotEntry {
    pub kind: SlotKind,
    pub element_index: usize,
}

pub struct SlotEntryV {
    pub kind: SlotKind,
    pub element_index: int,
}

pub open spec fn slot_entry_v(s: SlotEntry) -> SlotEntryV {
    SlotEntryV { kind: s.kind, element_index: s.element_index as int }
}

pub open spec fn slot_entries_v(ss: Seq<SlotEntry>) -> Seq<SlotEntryV>
    decreases ss,
{
    if ss.len() == 0 {
        Seq::empty()
    } else {
        slot_entries_v(ss.drop_last()).push(slot_entry_v(ss.last()))
    }
}

pub proof fn lemma_slot_entries_v(ss: Seq<SlotEntry>)
    ensures
        slot_entries_v(ss).len() == ss.len(),
        forall|j: int| 0 <= j < ss.len() ==> slot_entries_v(ss)[j] == slot_entry_v(
            #[trigger] ss[j],
        ),
    decreases ss,
{
    if ss.len() > 0 {
        lemma_slot_entries_v(ss.drop_last());
        assert forall|j: int| 0 <= j < ss.len() implies slot_entries_v(ss)[j] == slot_entry_v(
            #[trigger] ss[j],
        ) by {
            if j < ss.len() - 1 {
                assert(slot_entries_v(ss)[j] == slot_entries_v(ss.drop_last())[j]);
                assert(ss.drop_last()[j] == ss[j]);
            }
        }
    }
}

/// The snapshot's slot descriptor.
#[derive(Debug)]
pub enum SlotSpec {
    /// No structural parts.
    NoSlots,
    /// Exactly one `Children` part at element index zero: the runtime's
    /// single-children fast path.
    SingleChildren,
    /// The general form: one entry per structural part, in order.
    Entries(Vec<SlotEntry>),
}

pub enum SlotSpecV {
    NoSlots,
    SingleChildren,
    Entries(Seq<SlotEntryV>),
}

pub open spec fn slot_spec_v(s: SlotSpec) -> SlotSpecV {
    match s {
        SlotSpec::NoSlots => SlotSpecV::NoSlots,
        SlotSpec::SingleChildren => SlotSpecV::SingleChildren,
        SlotSpec::Entries(es) => SlotSpecV::Entries(slot_entries_v(es@)),
    }
}

// ---------------------------------------------------------------------------
// The snapshot.
// ---------------------------------------------------------------------------

/// The compiled unit for one JSX root.
#[derive(Debug)]
pub struct Snapshot {
    /// `__snapshot_<filenameHash>_<contentHash>_<counter>`.
    pub uid: String,
    /// The creator function's statements; absent for the JS target, whose
    /// snapshots are created by the other runtime.
    pub creator: Option<Vec<Stmt>>,
    /// How many elements the creator returns.
    pub element_count: usize,
    /// Whether the creator takes the snapshot-instance parameter (it does
    /// when a `list` element is created).
    pub has_instance_param: bool,
    /// One updater per attribute-like part, in extraction order; absent
    /// for the JS target or when there is none.
    pub updaters: Option<Vec<Updater>>,
    /// The slot descriptor for the structural parts.
    pub slots: SlotSpec,
    /// The stylesheet id, when the file carries one.
    pub css_id: Option<u32>,
    /// The values array of the replacement node, in expression-index
    /// order; absent when no attribute-like part exists.
    pub values: Option<Vec<ValueEntry>>,
    /// The `key` attribute value lifted from the root element.
    pub key: Option<AttrVal>,
    /// Whether the replacement node is self-closing (no dynamic parts).
    pub self_closing: bool,
    /// The children of the replacement node: the structural parts'
    /// payloads.
    pub children: Vec<JsxChild>,
}

pub struct SnapshotV {
    pub uid: Seq<char>,
    pub creator: Option<Seq<StmtV>>,
    pub element_count: int,
    pub has_instance_param: bool,
    pub updaters: Option<Seq<UpdaterV>>,
    pub slots: SlotSpecV,
    pub css_id: Option<u32>,
    pub values: Option<Seq<ValueEntryV>>,
    pub key: Option<AttrValV>,
    pub self_closing: bool,
    pub children: Seq<JsxChildV>,
}

pub open spec fn snapshot_v(s: Snapshot) -> SnapshotV {
    SnapshotV {
        uid: s.uid@,
        creator: match s.creator {
            Option::None => Option::None,
            Option::Some(ss) => Option::Some(stmts_v(ss@)),
        },
        element_count: s.element_count as int,
        has_instance_param: s.has_instance_param,
        updaters: match s.updaters {
            Option::None => Option::None,
            Option::Some(us) => Option::Some(updaters_v(us@)),
        },
        slots: slot_spec_v(s.slots),
        css_id: s.css_id,
        values: match s.values {
            Option::None => Option::None,
            Option::Some(vs) => Option::Some(values_v(vs@)),
        },
        key: match s.key {
            Option::None => Option::None,
            Option::Some(v) => Option::Some(attr_val_v(v)),
        },
        self_closing: s.self_closing,
        children: crate::ast::children_v(s.children@),
    }
}

} // verus!
