//! The menu as a value: what to show, not how.

use vstd::prelude::*;

verus! {

/// One entry of the menu.
#[derive(Debug, Clone)]
pub enum MenuItem {
    Header(String),
    Separator,
    Action { id: u16, title: String, checked: bool, enabled: bool },
}

/// An entry of the menu as contracts see it.
pub enum MenuItemModel {
    Header(Seq<char>),
    Separator,
    Action { id: u16, title: Seq<char>, checked: bool, enabled: bool },
}

impl View for MenuItem {
    type V = MenuItemModel;

    open spec fn view(&self) -> MenuItemModel {
        match self {
            MenuItem::Header(text) => MenuItemModel::Header(text@),
            MenuItem::Separator => MenuItemModel::Separator,
            MenuItem::Action { id, title, checked, enabled } => MenuItemModel::Action {
                id: *id,
                title: title@,
                checked: *checked,
                enabled: *enabled,
            },
        }
    }
}

/// What the menu shows now, top to bottom.
#[derive(Debug, Clone)]
pub struct MenuSpec {
    pub items: Vec<MenuItem>,
}

impl View for MenuSpec {
    type V = Seq<MenuItemModel>;

    open spec fn view(&self) -> Seq<MenuItemModel> {
        Seq::new(self.items@.len(), |i: int| self.items@[i]@)
    }
}

impl MenuSpec {
    /// The menu with these entries.
    pub fn new(items: Vec<MenuItem>) -> (r: Self)
        ensures
            r.items == items,
    {
        MenuSpec { items }
    }
}

} // verus!
