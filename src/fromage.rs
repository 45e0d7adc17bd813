//! The intermediate entry model shared by every parser and composer.
use vstd::prelude::*;

verus! {

/// What one entry holds.
#[derive(Debug, Clone, PartialEq, Eq)]
pub enum FromageKind {
    /// A blank line.
    Empty,
    /// Free-form comment text.
    Comment(String),
    /// A plain string resource.
    Str { id: u64, val: String },
    /// A message resource.
    Msg { id: u64, val: String },
}

/// One logical record of a translation catalog.
#[derive(Debug, Clone, PartialEq, Eq)]
pub struct Fromage {
    pub kind: FromageKind,
    /// Present in the source but marked as disabled.
    pub ignored: bool,
}

/// The mathematical content of a [`FromageKind`].
pub enum KindView {
    Empty,
    Comment(Seq<char>),
    Str { id: u64, val: Seq<char> },
    Msg { id: u64, val: Seq<char> },
}

/// The mathematical content of a [`Fromage`].
pub struct FromageView {
    pub kind: KindView,
    pub ignored: bool,
}

impl View for FromageKind {
    type V = KindView;

    open spec fn view(&self) -> KindView {
        match self {
            FromageKind::Empty => KindView::Empty,
            FromageKind::Comment(t) => KindView::Comment(t@),
            FromageKind::Str { id, val } => KindView::Str { id: *id, val: val@ },
            FromageKind::Msg { id, val } => KindView::Msg { id: *id, val: val@ },
        }
    }
}

impl View for Fromage {
    type V = FromageView;

    open spec fn view(&self) -> FromageView {
        FromageView { kind: self.kind@, ignored: self.ignored }
    }
}

pub open spec fn entry(kind: KindView, ignored: bool) -> FromageView {
    FromageView { kind, ignored }
}

impl Fromage {
    pub fn empty() -> (r: Self)
        ensures
            r@ == entry(KindView::Empty, false),
    {
        Fromage { kind: FromageKind::Empty, ignored: false }
    }

    pub fn comment(val: String) -> (r: Self)
        ensures
            r@ == entry(KindView::Comment(val@), false),
    {
        Fromage { kind: FromageKind::Comment(val), ignored: false }
    }

    pub fn str(id: u64, val: String) -> (r: Self)
        ensures
            r@ == entry(KindView::Str { id, val: val@ }, false),
    {
        Fromage { kind: FromageKind::Str { id, val }, ignored: false }
    }

    pub fn msg(id: u64, val: String) -> (r: Self)
        ensures
            r@ == entry(KindView::Msg { id, val: val@ }, false),
    {
        Fromage { kind: FromageKind::Msg { id, val }, ignored: false }
    }
}

} // verus!
