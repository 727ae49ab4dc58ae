//! Modifiers of classes and class members.
use super::syntax::{Diagnostic, TSAccessibility};
use crate::span::Span;
use vstd::prelude::*;

verus! {

#[derive(Clone, Copy, Debug, PartialEq, Eq, Structural)]
pub enum ModifierKind {
    Abstract,
    Accessor,
    Async,
    Const,
    Declare,
    Default,
    Export,
    In,
    Out,
    Override,
    Private,
    Protected,
    Public,
    Readonly,
    Static,
}

#[derive(Clone, Copy, Debug, PartialEq, Eq, Structural)]
pub struct Modifier {
    pub kind: ModifierKind,
    pub span: Span,
}

/// The modifiers in front of a class or a class member, in the order of the source.
#[derive(Clone, Debug)]
pub struct Modifiers {
    /// The number by which the host parser knows this list.
    pub id: u32,
    pub list: Vec<Modifier>,
    pub accessibility: Option<TSAccessibility>,
}

/// The model of [`Modifiers`].
#[verifier::ext_equal]
pub struct ModifiersView {
    pub id: u32,
    pub list: Seq<Modifier>,
    pub accessibility: Option<TSAccessibility>,
}

impl View for Modifiers {
    type V = ModifiersView;

    open spec fn view(&self) -> ModifiersView {
        ModifiersView { id: self.id, list: self.list@, accessibility: self.accessibility }
    }
}

impl ModifiersView {
    /// The list with no modifier in it.
    pub open spec fn empty() -> ModifiersView {
        ModifiersView { id: 0, list: Seq::empty(), accessibility: None }
    }

    /// One of the modifiers is of this kind.
    pub open spec fn contains(self, kind: ModifierKind) -> bool {
        exists|i: int| 0 <= i < self.list.len() && (#[trigger] self.list[i]).kind == kind
    }
}

impl Modifiers {
    /// The list with no modifier in it.
    pub fn empty() -> (modifiers: Modifiers)
        ensures
            modifiers@ == ModifiersView::empty(),
    {
        Modifiers { id: 0, list: Vec::new(), accessibility: None }
    }

    /// Tells whether one of the modifiers is of this kind.
    pub fn contains(&self, kind: ModifierKind) -> (found: bool)
        ensures
            found == self@.contains(kind),
    {
        let mut i: usize = 0;
        while i < self.list.len()
            invariant
                i <= self.list@.len(),
                forall|j: int| 0 <= j < i ==> (#[trigger] self.list@[j]).kind != kind,
            decreases self.list@.len() - i,
        {
            if self.list[i].kind == kind {
                assert(self@.list[i as int].kind == kind);
                return true;
            }
            i += 1;
        }
        false
    }
}

/// A place where only some modifiers may stand.
#[derive(Clone, Copy, Debug, PartialEq, Eq, Structural)]
pub enum ModifierPlace {
    /// In front of `class`.
    Class,
    /// In front of a member with a private name.
    PrivateMember,
    /// In front of an `accessor` property.
    AccessorProperty,
}

impl ModifierPlace {
    /// The modifiers that may stand in this place.
    pub open spec fn allowed(self, kind: ModifierKind) -> bool {
        match self {
            ModifierPlace::Class => kind == ModifierKind::Declare || kind == ModifierKind::Abstract,
            ModifierPlace::PrivateMember => kind != ModifierKind::Public && kind
                != ModifierKind::Protected && kind != ModifierKind::Private,
            ModifierPlace::AccessorProperty => kind == ModifierKind::Public || kind
                == ModifierKind::Protected || kind == ModifierKind::Private || kind
                == ModifierKind::Accessor || kind == ModifierKind::Static || kind
                == ModifierKind::Abstract || kind == ModifierKind::Override,
        }
    }

    /// What is reported of a modifier that may not stand in this place.
    pub open spec fn complaint(self, modifier: Modifier) -> Diagnostic {
        match self {
            ModifierPlace::Class => Diagnostic::ModifierCannotBeUsedHere(modifier),
            ModifierPlace::PrivateMember => Diagnostic::AccessibilityModifierOnPrivateProperty(
                modifier,
            ),
            ModifierPlace::AccessorProperty => Diagnostic::AccessorModifier(modifier),
        }
    }

    /// What is reported of a list of modifiers: one complaint for each that may not stand here,
    /// in the order of the list.
    pub open spec fn complaints(self, list: Seq<Modifier>) -> Seq<Diagnostic> {
        list.filter(|m: Modifier| !self.allowed(m.kind)).map_values(
            |m: Modifier| self.complaint(m),
        )
    }

    /// Tells whether a modifier may stand in this place.
    pub fn allows(self, kind: ModifierKind) -> (allowed: bool)
        ensures
            allowed == self.allowed(kind),
    {
        match self {
            ModifierPlace::Class => matches!(kind, ModifierKind::Declare | ModifierKind::Abstract),
            ModifierPlace::PrivateMember => !matches!(
                kind,
                ModifierKind::Public | ModifierKind::Protected | ModifierKind::Private
            ),
            ModifierPlace::AccessorProperty => matches!(
                kind,
                ModifierKind::Public | ModifierKind::Protected | ModifierKind::Private
                | ModifierKind::Accessor | ModifierKind::Static | ModifierKind::Abstract
                | ModifierKind::Override
            ),
        }
    }

    /// Makes the diagnostic for a modifier that may not stand in this place.
    pub fn complain(self, modifier: Modifier) -> (diagnostic: Diagnostic)
        ensures
            diagnostic == self.complaint(modifier),
    {
        match self {
            ModifierPlace::Class => Diagnostic::ModifierCannotBeUsedHere(modifier),
            ModifierPlace::PrivateMember => Diagnostic::AccessibilityModifierOnPrivateProperty(
                modifier,
            ),
            ModifierPlace::AccessorProperty => Diagnostic::AccessorModifier(modifier),
        }
    }
}

} // verus!
