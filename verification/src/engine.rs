//! The navigation engine: the active layer as a function of the binding tree
//! and of every chord pressed so far, replayed from the root.

use crate::binding::{
    find_entry, first_match, is_bound, layer_view, strings_view, ActionView, BindingAction,
    BindingEntry, EntryView,
};
use vstd::prelude::*;

verus! {

/// The chord that ends the session at any depth.
pub open spec fn escape_chord() -> Seq<char> {
    "escape"@
}

/// The reserved chord, as a string.
pub fn escape() -> (chord: String)
    ensures
        chord@ == escape_chord(),
{
    "escape".to_owned()
}

/// Where a path of chords leads.
#[derive(Clone, Copy, Debug, PartialEq, Eq)]
pub enum Resolution<'a> {
    /// The menu to display and to register shortcuts for.
    ActiveLayer(&'a Vec<BindingEntry>),
    /// Nothing is left to do but to end the session.
    Terminate,
    /// A command was reached: run it, then end the session.
    Dispatch(&'a String),
}

/// The mathematical value of a [`Resolution`].
pub enum ResolutionView {
    ActiveLayer(Seq<EntryView>),
    Terminate,
    Dispatch(Seq<char>),
}

impl<'a> View for Resolution<'a> {
    type V = ResolutionView;

    open spec fn view(&self) -> ResolutionView {
        match *self {
            Resolution::ActiveLayer(layer) => ResolutionView::ActiveLayer(layer_view(layer@)),
            Resolution::Terminate => ResolutionView::Terminate,
            Resolution::Dispatch(command) => ResolutionView::Dispatch(command@),
        }
    }
}

/// What one chord does in one layer.
pub open spec fn press(layer: Seq<EntryView>, chord: Seq<char>) -> ResolutionView {
    if chord == escape_chord() {
        ResolutionView::Terminate
    } else if !is_bound(layer, chord) {
        ResolutionView::Terminate
    } else {
        match layer[first_match(layer, chord)].action {
            ActionView::SubLayer(sub) => ResolutionView::ActiveLayer(sub),
            ActionView::Command(command) => ResolutionView::Dispatch(command),
        }
    }
}

/// Where `path` leads from `layer`: each chord is pressed in the layer that
/// the chords before it opened, and the walk stops at the first chord that
/// opens none.
pub open spec fn resolve_spec(layer: Seq<EntryView>, path: Seq<Seq<char>>) -> ResolutionView
    decreases path.len(),
{
    if path.len() == 0 {
        ResolutionView::ActiveLayer(layer)
    } else {
        match press(layer, path[0]) {
            ResolutionView::ActiveLayer(sub) => resolve_spec(sub, path.skip(1)),
            end => end,
        }
    }
}

/// Replays `path` against `tree` from the root.
pub fn resolve<'a>(tree: &'a Vec<BindingEntry>, path: &Vec<String>) -> (resolution: Resolution<'a>)
    ensures
        resolution@ == resolve_spec(layer_view(tree@), strings_view(path@)),
{
    let reserved = escape();
    let mut active: &'a Vec<BindingEntry> = tree;
    let mut k: usize = 0;
    assert(strings_view(path@).skip(0) =~= strings_view(path@));
    while k < path.len()
        invariant
            k <= path.len(),
            reserved@ == escape_chord(),
            resolve_spec(layer_view(tree@), strings_view(path@)) == resolve_spec(
                layer_view(active@),
                strings_view(path@).skip(k as int),
            ),
        decreases path.len() - k,
    {
        let chord = &path[k];
        proof {
            let rest = strings_view(path@).skip(k as int);
            assert(rest[0] == chord@);
            assert(rest.skip(1) =~= strings_view(path@).skip(k + 1));
        }
        if *chord == reserved {
            return Resolution::Terminate;
        }
        match find_entry(active, chord) {
            None => {
                return Resolution::Terminate;
            },
            Some(entry) => {
                match &entry.action {
                    BindingAction::SubLayer(sub) => {
                        active = sub;
                    },
                    BindingAction::Command(command) => {
                        return Resolution::Dispatch(command);
                    },
                }
            },
        }
        k += 1;
    }
    Resolution::ActiveLayer(active)
}

/// What resolving `first` and then `rest` from where `first` led gives.
pub open spec fn resolve_then(
    layer: Seq<EntryView>,
    first: Seq<Seq<char>>,
    rest: Seq<Seq<char>>,
) -> ResolutionView {
    match resolve_spec(layer, first) {
        ResolutionView::ActiveLayer(reached) => resolve_spec(reached, rest),
        end => end,
    }
}

/// Resolution is a function of the tree and the path by their values alone:
/// equal trees and equal paths resolve alike.
pub proof fn lemma_resolve_deterministic(
    tree_a: Vec<BindingEntry>,
    path_a: Vec<String>,
    tree_b: Vec<BindingEntry>,
    path_b: Vec<String>,
)
    requires
        layer_view(tree_a@) == layer_view(tree_b@),
        strings_view(path_a@) == strings_view(path_b@),
    ensures
        resolve_spec(layer_view(tree_a@), strings_view(path_a@)) == resolve_spec(
            layer_view(tree_b@),
            strings_view(path_b@),
        ),
{
}

/// Resolving a path in two parts gives what resolving it whole gives: the
/// second part is replayed from the layer that the first part reached, and
/// is ignored where the first part ended the session.
pub proof fn lemma_resolve_concat(
    layer: Seq<EntryView>,
    first: Seq<Seq<char>>,
    rest: Seq<Seq<char>>,
)
    ensures
        resolve_spec(layer, first + rest) == resolve_then(layer, first, rest),
    decreases first.len(),
{
    if first.len() == 0 {
        assert(first + rest =~= rest);
    } else {
        let whole = first + rest;
        assert(whole[0] == first[0]);
        assert(whole.skip(1) =~= first.skip(1) + rest);
        match press(layer, first[0]) {
            ResolutionView::ActiveLayer(sub) => {
                lemma_resolve_concat(sub, first.skip(1), rest);
            },
            _ => {},
        }
    }
}

/// A path that holds the reserved chord at position `at` resolves to
/// `Terminate`, whatever stands before and after it, unless the chords
/// before it already reached a command.
pub proof fn lemma_escape_terminates(layer: Seq<EntryView>, path: Seq<Seq<char>>, at: int)
    requires
        0 <= at < path.len(),
        path[at] == escape_chord(),
        !(resolve_spec(layer, path.take(at)) is Dispatch),
    ensures
        resolve_spec(layer, path) == ResolutionView::Terminate,
{
    let before = path.take(at);
    let after = path.skip(at);
    assert(path =~= before + after);
    lemma_resolve_concat(layer, before, after);
    assert(after[0] == escape_chord());
}

/// A chord that the layer does not bind dismisses: from that layer, a path
/// that starts with it resolves to `Terminate`.
pub proof fn lemma_unmapped_terminates(
    layer: Seq<EntryView>,
    chord: Seq<char>,
    rest: Seq<Seq<char>>,
)
    requires
        !is_bound(layer, chord),
    ensures
        resolve_spec(layer, seq![chord] + rest) == ResolutionView::Terminate,
{
    let path = seq![chord] + rest;
    assert(path[0] == chord);
}

/// The same, at any depth: once a path has reached a layer, a further chord
/// that this layer does not bind ends the session, whatever follows it.
pub proof fn lemma_unmapped_terminates_at_depth(
    tree: Seq<EntryView>,
    path: Seq<Seq<char>>,
    layer: Seq<EntryView>,
    chord: Seq<char>,
    rest: Seq<Seq<char>>,
)
    requires
        resolve_spec(tree, path) == ResolutionView::ActiveLayer(layer),
        !is_bound(layer, chord),
    ensures
        resolve_spec(tree, path + (seq![chord] + rest)) == ResolutionView::Terminate,
{
    lemma_resolve_concat(tree, path, seq![chord] + rest);
    lemma_unmapped_terminates(layer, chord, rest);
}

/// Every chord of `chords` is bound, in the layer that the chords before it
/// opened, to a sub-layer, and none is the reserved chord.
pub open spec fn opens_sublayers(layer: Seq<EntryView>, chords: Seq<Seq<char>>) -> bool
    decreases chords.len(),
{
    chords.len() == 0 || {
        let entry = layer[first_match(layer, chords[0])];
        &&& chords[0] != escape_chord()
        &&& is_bound(layer, chords[0])
        &&& entry.action is SubLayer
        &&& opens_sublayers(entry.action->SubLayer_0, chords.skip(1))
    }
}

/// The layer reached from `layer` by descending one level for each chord of
/// `chords`, through the first entry bound to it.
pub open spec fn descend(layer: Seq<EntryView>, chords: Seq<Seq<char>>) -> Seq<EntryView>
    decreases chords.len(),
{
    if chords.len() == 0 {
        layer
    } else {
        match layer[first_match(layer, chords[0])].action {
            ActionView::SubLayer(sub) => descend(sub, chords.skip(1)),
            ActionView::Command(_) => layer,
        }
    }
}

/// Chords that each open a sub-layer resolve to the layer reached by
/// descending one level for each of them.
pub proof fn lemma_sublayer_path_resolves(layer: Seq<EntryView>, chords: Seq<Seq<char>>)
    requires
        opens_sublayers(layer, chords),
    ensures
        resolve_spec(layer, chords) == ResolutionView::ActiveLayer(descend(layer, chords)),
    decreases chords.len(),
{
    if chords.len() > 0 {
        let entry = layer[first_match(layer, chords[0])];
        lemma_sublayer_path_resolves(entry.action->SubLayer_0, chords.skip(1));
    }
}

/// Appending such chords to a path that reached `layer` gives the layer
/// reached by descending from `layer`.
pub proof fn lemma_append_sublayer_path(
    tree: Seq<EntryView>,
    path: Seq<Seq<char>>,
    layer: Seq<EntryView>,
    chords: Seq<Seq<char>>,
)
    requires
        resolve_spec(tree, path) == ResolutionView::ActiveLayer(layer),
        opens_sublayers(layer, chords),
    ensures
        resolve_spec(tree, path + chords) == ResolutionView::ActiveLayer(descend(layer, chords)),
{
    lemma_resolve_concat(tree, path, chords);
    lemma_sublayer_path_resolves(layer, chords);
}

} // verus!
