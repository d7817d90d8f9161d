//! The shape of parsed debug-information entries as this library reads
//! them.  The external DWARF reader yields, per compilation unit, the
//! direct entries of the unit root; each entry carries a tag, an
//! ordered attribute list, and its direct children.  The extractor
//! never descends further than a subprogram's direct children, so the
//! model keeps exactly those two levels.

use vstd::prelude::*;

verus! {

/// The tags the extractor distinguishes; every other tag is `Other`.
#[derive(Debug, Copy, Clone, PartialEq, Eq, Structural)]
pub enum DieTag {
    Subprogram,
    FormalParameter,
    Other,
}

/// The attribute kinds the extractor reads; every other kind is
/// `Other`.
#[derive(Debug, Copy, Clone, PartialEq, Eq, Structural)]
pub enum AttrKind {
    Name,
    LowPc,
    Location,
    Other,
}

/// The shapes of attribute value the extractor distinguishes: an
/// offset into the string section, a string held inline, a raw
/// address, the raw bytes of a location expression, or anything else.
#[derive(Debug)]
pub enum AttrValue {
    StringOffset(u64),
    InlineString(String),
    Address(u64),
    ExprLoc(Vec<u8>),
    Other,
}

/// One (attribute-kind, attribute-value) pair of an entry.
#[derive(Debug)]
pub struct DieAttr {
    pub kind: AttrKind,
    pub value: AttrValue,
}

/// A direct child of a top-level entry: tag and attributes.
#[derive(Debug)]
pub struct ChildEntry {
    pub tag: DieTag,
    pub attrs: Vec<DieAttr>,
}

/// A direct entry of a compilation-unit root: tag, attributes, and
/// direct children.
#[derive(Debug)]
pub struct DebugEntry {
    pub tag: DieTag,
    pub attrs: Vec<DieAttr>,
    pub children: Vec<ChildEntry>,
}

/// One compilation unit: the direct entries of its root, in
/// declaration order.
#[derive(Debug)]
pub struct CompilationUnit {
    pub entries: Vec<DebugEntry>,
}

/// The mathematical shape of an attribute value.
#[verifier::ext_equal]
pub enum AttrValueView {
    StringOffset(u64),
    InlineString(Seq<char>),
    Address(u64),
    ExprLoc(Seq<u8>),
    Other,
}

/// The mathematical shape of an attribute.
#[verifier::ext_equal]
pub struct AttrView {
    pub kind: AttrKind,
    pub value: AttrValueView,
}

/// The mathematical shape of a child entry.
#[verifier::ext_equal]
pub struct ChildView {
    pub tag: DieTag,
    pub attrs: Seq<AttrView>,
}

/// The mathematical shape of a top-level entry.
#[verifier::ext_equal]
pub struct EntryView {
    pub tag: DieTag,
    pub attrs: Seq<AttrView>,
    pub children: Seq<ChildView>,
}

impl View for AttrValue {
    type V = AttrValueView;

    open spec fn view(&self) -> AttrValueView {
        match self {
            AttrValue::StringOffset(off) => AttrValueView::StringOffset(*off),
            AttrValue::InlineString(s) => AttrValueView::InlineString(s@),
            AttrValue::Address(a) => AttrValueView::Address(*a),
            AttrValue::ExprLoc(b) => AttrValueView::ExprLoc(b@),
            AttrValue::Other => AttrValueView::Other,
        }
    }
}

impl View for DieAttr {
    type V = AttrView;

    open spec fn view(&self) -> AttrView {
        AttrView { kind: self.kind, value: self.value@ }
    }
}

impl View for ChildEntry {
    type V = ChildView;

    open spec fn view(&self) -> ChildView {
        ChildView { tag: self.tag, attrs: self.attrs@.map_values(|a: DieAttr| a@) }
    }
}

impl View for DebugEntry {
    type V = EntryView;

    open spec fn view(&self) -> EntryView {
        EntryView {
            tag: self.tag,
            attrs: self.attrs@.map_values(|a: DieAttr| a@),
            children: self.children@.map_values(|c: ChildEntry| c@),
        }
    }
}

impl View for CompilationUnit {
    type V = Seq<EntryView>;

    open spec fn view(&self) -> Seq<EntryView> {
        self.entries@.map_values(|e: DebugEntry| e@)
    }
}

} // verus!
