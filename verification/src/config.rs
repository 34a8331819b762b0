//! What a freshly loaded binding tree must satisfy before a session starts,
//! and the chords that the loader has to check with the hotkey subsystem.

use crate::binding::{
    entry_view, layer_view, strings_view, ActionView, BindingAction, BindingEntry, EntryView,
};
use vstd::prelude::*;

verus! {

/// Why a binding tree cannot be used.
#[derive(Clone, Copy, Debug, PartialEq, Eq, Structural)]
pub enum ConfigError {
    /// The root layer has no entry: there would be nothing to show.
    EmptyRoot,
}

/// Accepts a binding tree whose root layer is not empty.
pub fn check_root(tree: &Vec<BindingEntry>) -> (checked: Result<(), ConfigError>)
    ensures
        checked is Ok <==> tree@.len() > 0,
        checked is Err ==> checked == Err::<(), ConfigError>(ConfigError::EmptyRoot),
{
    if tree.len() == 0 {
        Err(ConfigError::EmptyRoot)
    } else {
        Ok(())
    }
}

/// The chord of `entry`, then the chords of the layer below it.
pub open spec fn entry_chords(entry: EntryView) -> Seq<Seq<char>>
    decreases entry, 0nat,
{
    match entry.action {
        ActionView::SubLayer(sub) => seq![entry.chord] + chords_upto(sub, sub.len()),
        ActionView::Command(_) => seq![entry.chord],
    }
}

/// The chords of the first `n` entries of `layer`, each followed by the
/// chords below it.
pub open spec fn chords_upto(layer: Seq<EntryView>, n: nat) -> Seq<Seq<char>>
    decreases layer, n,
{
    if n == 0 || n > layer.len() {
        Seq::empty()
    } else {
        chords_upto(layer, (n - 1) as nat) + entry_chords(layer[n - 1])
    }
}

/// Every chord of every binding of the tree, parents before children and
/// siblings in presentation order.
pub open spec fn tree_chords(layer: Seq<EntryView>) -> Seq<Seq<char>> {
    chords_upto(layer, layer.len())
}

/// Appends every chord of the tree under `layer` to `out`.
pub fn collect_chords(layer: &Vec<BindingEntry>, out: &mut Vec<String>)
    ensures
        strings_view(final(out)@) == strings_view(old(out)@) + tree_chords(layer_view(layer@)),
    decreases layer,
{
    let ghost before = strings_view(out@);
    let mut i: usize = 0;
    assert(strings_view(out@) =~= before + chords_upto(layer_view(layer@), 0));
    while i < layer.len()
        invariant
            i <= layer.len(),
            strings_view(out@) == before + chords_upto(layer_view(layer@), i as nat),
        decreases layer.len() - i,
    {
        let ghost collected = strings_view(out@);
        let ghost entry = layer_view(layer@)[i as int];
        proof {
            assert(entry == entry_view(layer@[i as int]));
        }
        out.push(layer[i].chord.clone());
        assert(strings_view(out@) =~= collected.push(entry.chord));
        match &layer[i].action {
            BindingAction::SubLayer(sub) => {
                collect_chords(sub, out);
            },
            BindingAction::Command(_) => {},
        }
        proof {
            assert(strings_view(out@) =~= collected + entry_chords(entry));
            assert(strings_view(out@) =~= before + chords_upto(layer_view(layer@), (i + 1) as nat));
        }
        i += 1;
    }
}

/// Every chord of every binding of `tree`, for the loader to check before
/// any window is shown.
pub fn all_chords(tree: &Vec<BindingEntry>) -> (chords: Vec<String>)
    ensures
        strings_view(chords@) == tree_chords(layer_view(tree@)),
{
    let mut chords: Vec<String> = Vec::new();
    assert(strings_view(chords@) =~= Seq::<Seq<char>>::empty());
    collect_chords(tree, &mut chords);
    assert(Seq::<Seq<char>>::empty() + tree_chords(layer_view(tree@)) =~= tree_chords(
        layer_view(tree@),
    ));
    chords
}

} // verus!
