//! What the presentation layer gets to see of the active layer.

use crate::binding::{entry_view, layer_view, BindingAction, BindingEntry, EntryView};
use vstd::prelude::*;

verus! {

/// One line of the menu.
#[derive(Clone, Debug, PartialEq, Eq)]
pub struct MenuRow {
    pub chord: String,
    pub name: String,
    /// The entry opens a nested layer; else it runs a command.
    pub is_layer: bool,
}

/// The mathematical value of a [`MenuRow`].
pub struct MenuRowView {
    pub chord: Seq<char>,
    pub name: Seq<char>,
    pub is_layer: bool,
}

impl View for MenuRow {
    type V = MenuRowView;

    open spec fn view(&self) -> MenuRowView {
        MenuRowView { chord: self.chord@, name: self.name@, is_layer: self.is_layer }
    }
}

/// The rows of a menu, each by its value.
pub open spec fn rows_view(rows: Seq<MenuRow>) -> Seq<MenuRowView> {
    Seq::new(rows.len(), |i: int| rows[i]@)
}

/// The line that shows `entry`.
pub open spec fn row_of(entry: EntryView) -> MenuRowView {
    MenuRowView { chord: entry.chord, name: entry.label, is_layer: entry.action is SubLayer }
}

/// The lines that show `layer`, in its order.
pub open spec fn rows_of(layer: Seq<EntryView>) -> Seq<MenuRowView> {
    Seq::new(layer.len(), |i: int| row_of(layer[i]))
}

/// Lists the active layer for display: one row for each entry, in
/// presentation order.
pub fn menu_rows(layer: &Vec<BindingEntry>) -> (rows: Vec<MenuRow>)
    ensures
        rows_view(rows@) == rows_of(layer_view(layer@)),
{
    let mut rows: Vec<MenuRow> = Vec::new();
    let mut i: usize = 0;
    while i < layer.len()
        invariant
            i <= layer.len(),
            rows_view(rows@) =~= rows_of(layer_view(layer@)).take(i as int),
        decreases layer.len() - i,
    {
        let entry = &layer[i];
        let is_layer = match &entry.action {
            BindingAction::SubLayer(_) => true,
            BindingAction::Command(_) => false,
        };
        let ghost shown = rows_view(rows@);
        rows.push(MenuRow { chord: entry.chord.clone(), name: entry.label.clone(), is_layer });
        proof {
            assert(layer_view(layer@)[i as int] == entry_view(layer@[i as int]));
            assert(rows_view(rows@) =~= shown.push(row_of(layer_view(layer@)[i as int])));
        }
        i += 1;
    }
    assert(rows_of(layer_view(layer@)).take(layer.len() as int) =~= rows_of(layer_view(layer@)));
    rows
}

} // verus!
