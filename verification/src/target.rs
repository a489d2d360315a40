//! The code that a policy is attached to, and what to call it in messages.

use vstd::prelude::*;

verus! {

/// The kind of item that a policy is attached to, with the item's name
/// where it has one.
#[derive(Clone, Debug, PartialEq, Eq)]
pub enum TargetKind {
    Function(String),
    Module(String),
    Implementation,
    Trait(String),
    Struct(String),
    Enum(String),
    Other,
}

/// What a [`TargetKind`] holds, names as sequences of characters.
pub enum TargetKindView {
    Function(Seq<char>),
    Module(Seq<char>),
    Implementation,
    Trait(Seq<char>),
    Struct(Seq<char>),
    Enum(Seq<char>),
    Other,
}

impl View for TargetKind {
    type V = TargetKindView;

    open spec fn view(&self) -> TargetKindView {
        match *self {
            TargetKind::Function(name) => TargetKindView::Function(name@),
            TargetKind::Module(name) => TargetKindView::Module(name@),
            TargetKind::Implementation => TargetKindView::Implementation,
            TargetKind::Trait(name) => TargetKindView::Trait(name@),
            TargetKind::Struct(name) => TargetKindView::Struct(name@),
            TargetKind::Enum(name) => TargetKindView::Enum(name@),
            TargetKind::Other => TargetKindView::Other,
        }
    }
}

/// What an item is called in messages: functions and modules by their
/// name alone, traits, structs and enums by their kind and name, and what
/// has no name by a description.
pub open spec fn item_name_of(item: TargetKindView) -> Seq<char> {
    match item {
        TargetKindView::Function(name) => name,
        TargetKindView::Module(name) => name,
        TargetKindView::Implementation => "implementation block"@,
        TargetKindView::Trait(name) => "trait "@ + name,
        TargetKindView::Struct(name) => "struct "@ + name,
        TargetKindView::Enum(name) => "enum "@ + name,
        TargetKindView::Other => "code block"@,
    }
}

/// `kind`, then `name`.
fn kind_and_name(kind: &str, name: &String) -> (text: String)
    ensures
        text@ == kind@ + name@,
{
    let mut text = String::new();
    text.append(kind);
    text.append(name.as_str());
    assert(text@ =~= kind@ + name@);
    text
}

/// What to call `item` in messages.
pub fn item_name(item: &TargetKind) -> (name: String)
    ensures
        name@ == item_name_of(item@),
{
    match item {
        TargetKind::Function(name) => name.clone(),
        TargetKind::Module(name) => name.clone(),
        TargetKind::Implementation => String::from_str("implementation block"),
        TargetKind::Trait(name) => kind_and_name("trait ", name),
        TargetKind::Struct(name) => kind_and_name("struct ", name),
        TargetKind::Enum(name) => kind_and_name("enum ", name),
        TargetKind::Other => String::from_str("code block"),
    }
}

} // verus!
