//! The binding tree: layers of chord bindings, each of which either opens a
//! nested layer or names a command line.

use vstd::prelude::*;

verus! {

/// What pressing a bound chord does.
#[derive(Debug, PartialEq, Eq)]
pub enum BindingAction {
    /// Descending here yields a new menu.
    SubLayer(Vec<BindingEntry>),
    /// A command line to execute on arrival.
    Command(String),
}

/// One edge of the binding tree.
#[derive(Debug, PartialEq, Eq)]
pub struct BindingEntry {
    /// The key combination, in its string form.
    pub chord: String,
    /// A human-readable name; it carries no behaviour.
    pub label: String,
    pub action: BindingAction,
}

/// The mathematical value of a [`BindingAction`].
pub enum ActionView {
    SubLayer(Seq<EntryView>),
    Command(Seq<char>),
}

/// The mathematical value of a [`BindingEntry`].
pub struct EntryView {
    pub chord: Seq<char>,
    pub label: Seq<char>,
    pub action: ActionView,
}

/// The value of one entry, sub-layers included.
pub open spec fn entry_view(e: BindingEntry) -> EntryView
    decreases e,
{
    EntryView {
        chord: e.chord@,
        label: e.label@,
        action: match e.action {
            BindingAction::SubLayer(layer) => ActionView::SubLayer(layer_view(layer@)),
            BindingAction::Command(command) => ActionView::Command(command@),
        },
    }
}

/// The value of a layer: the values of its entries, in presentation order.
pub open spec fn layer_view(layer: Seq<BindingEntry>) -> Seq<EntryView>
    decreases layer,
{
    Seq::new(
        layer.len(),
        |i: int|
            if 0 <= i < layer.len() {
                entry_view(layer[i])
            } else {
                arbitrary()
            },
    )
}

impl View for BindingEntry {
    type V = EntryView;

    open spec fn view(&self) -> EntryView {
        entry_view(*self)
    }
}

/// A sequence of strings, each by its value.
pub open spec fn strings_view(strings: Seq<String>) -> Seq<Seq<char>> {
    Seq::new(strings.len(), |i: int| strings[i]@)
}

/// Some entry of `layer` is bound to `chord`.
pub open spec fn is_bound(layer: Seq<EntryView>, chord: Seq<char>) -> bool {
    exists|i: int| 0 <= i < layer.len() && (#[trigger] layer[i]).chord == chord
}

/// `i` is the position of the first entry of `layer` bound to `chord`.
pub open spec fn is_first_match(layer: Seq<EntryView>, chord: Seq<char>, i: int) -> bool {
    &&& 0 <= i < layer.len()
    &&& layer[i].chord == chord
    &&& forall|j: int| 0 <= j < i ==> (#[trigger] layer[j]).chord != chord
}

/// The position of the first entry bound to `chord`, where there is one.
pub open spec fn first_match(layer: Seq<EntryView>, chord: Seq<char>) -> int {
    choose|i: int| is_first_match(layer, chord, i)
}

/// No two entries of `layer` share a chord.
pub open spec fn chords_unique(layer: Seq<EntryView>) -> bool {
    forall|i: int, j: int|
        0 <= i < j < layer.len() ==> (#[trigger] layer[i]).chord != (#[trigger] layer[j]).chord
}

/// The chords bound in `layer`.
pub open spec fn layer_chords(layer: Seq<EntryView>) -> Set<Seq<char>> {
    Set::new(|c: Seq<char>| is_bound(layer, c))
}

/// A first match is the only first match.
pub proof fn lemma_first_match_unique(layer: Seq<EntryView>, chord: Seq<char>, i: int)
    requires
        is_first_match(layer, chord, i),
    ensures
        is_bound(layer, chord),
        first_match(layer, chord) == i,
{
    let k = first_match(layer, chord);
    assert(is_first_match(layer, chord, k));
    if k < i {
        assert(layer[k].chord != chord);
    }
    if i < k {
        assert(layer[i].chord != chord);
    }
}

/// A bound chord has a first match.
pub proof fn lemma_bound_has_first_match(layer: Seq<EntryView>, chord: Seq<char>)
    requires
        is_bound(layer, chord),
    ensures
        is_first_match(layer, chord, first_match(layer, chord)),
{
    let w = choose|i: int| 0 <= i < layer.len() && (#[trigger] layer[i]).chord == chord;
    lemma_first_match_below(layer, chord, w);
}

proof fn lemma_first_match_below(layer: Seq<EntryView>, chord: Seq<char>, w: int)
    requires
        0 <= w < layer.len(),
        layer[w].chord == chord,
    ensures
        is_first_match(layer, chord, first_match(layer, chord)),
    decreases w,
{
    if forall|j: int| 0 <= j < w ==> (#[trigger] layer[j]).chord != chord {
        assert(is_first_match(layer, chord, w));
    } else {
        let j = choose|j: int| 0 <= j < w && (#[trigger] layer[j]).chord == chord;
        lemma_first_match_below(layer, chord, j);
    }
}

/// Where no two entries share a chord, the entry bound to a chord is the
/// first match: the order of the entries then decides nothing.
pub proof fn lemma_unique_chord_is_first_match(layer: Seq<EntryView>, chord: Seq<char>, i: int)
    requires
        chords_unique(layer),
        0 <= i < layer.len(),
        layer[i].chord == chord,
    ensures
        first_match(layer, chord) == i,
{
    assert forall|j: int| 0 <= j < i implies (#[trigger] layer[j]).chord != chord by {
        assert(layer[j].chord != layer[i].chord);
    }
    lemma_first_match_unique(layer, chord, i);
}

/// Finds the first entry of `layer` bound to `chord`.
pub fn find_entry<'a>(layer: &'a Vec<BindingEntry>, chord: &String) -> (found: Option<
    &'a BindingEntry,
>)
    ensures
        found is Some <==> is_bound(layer_view(layer@), chord@),
        found is Some ==> found->0@ == layer_view(layer@)[first_match(
            layer_view(layer@),
            chord@,
        )],
{
    let mut i: usize = 0;
    while i < layer.len()
        invariant
            i <= layer.len(),
            forall|j: int| 0 <= j < i ==> (#[trigger] layer_view(layer@)[j]).chord != chord@,
        decreases layer.len() - i,
    {
        if layer[i].chord == *chord {
            proof {
                let lv = layer_view(layer@);
                assert(lv[i as int] == entry_view(layer@[i as int]));
                assert(is_first_match(lv, chord@, i as int));
                lemma_first_match_unique(lv, chord@, i as int);
            }
            return Some(&layer[i]);
        }
        proof {
            assert(layer_view(layer@)[i as int] == entry_view(layer@[i as int]));
        }
        i += 1;
    }
    None
}

} // verus!
