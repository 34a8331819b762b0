//! The shortcut lifecycle: the table of global hotkeys that must be
//! registered while a layer is active, rebuilt from scratch on every change.

use crate::binding::{entry_view, layer_chords, layer_view, strings_view, BindingEntry, EntryView};
use crate::engine::{escape, escape_chord};
use vstd::prelude::*;

verus! {

/// What a global hotkey does when it fires.
#[derive(Clone, Debug, PartialEq, Eq)]
pub enum HotkeyHandler {
    /// Append this chord to the navigation path, and nothing else.
    AppendChord(String),
    /// End the session.
    EndSession,
}

/// One global hotkey: a chord and its handler.
#[derive(Clone, Debug, PartialEq, Eq)]
pub struct Hotkey {
    pub chord: String,
    pub handler: HotkeyHandler,
}

/// The mathematical value of a [`HotkeyHandler`].
pub enum HandlerView {
    AppendChord(Seq<char>),
    EndSession,
}

/// The mathematical value of a [`Hotkey`].
pub struct HotkeyView {
    pub chord: Seq<char>,
    pub handler: HandlerView,
}

impl View for HotkeyHandler {
    type V = HandlerView;

    open spec fn view(&self) -> HandlerView {
        match *self {
            HotkeyHandler::AppendChord(chord) => HandlerView::AppendChord(chord@),
            HotkeyHandler::EndSession => HandlerView::EndSession,
        }
    }
}

impl View for Hotkey {
    type V = HotkeyView;

    open spec fn view(&self) -> HotkeyView {
        HotkeyView { chord: self.chord@, handler: self.handler@ }
    }
}

/// The hotkey that a layer's entry asks for: its chord, appended to the path
/// when pressed.
pub open spec fn entry_hotkey(entry: EntryView) -> HotkeyView {
    HotkeyView { chord: entry.chord, handler: HandlerView::AppendChord(entry.chord) }
}

/// The hotkey that is registered whatever layer is active.
pub open spec fn escape_hotkey() -> HotkeyView {
    HotkeyView { chord: escape_chord(), handler: HandlerView::EndSession }
}

/// The hotkeys to register for `layer`: one for each entry, in order, then
/// the reserved one.
pub open spec fn planned_hotkeys(layer: Seq<EntryView>) -> Seq<HotkeyView> {
    Seq::new(layer.len(), |i: int| entry_hotkey(layer[i])).push(escape_hotkey())
}

/// The chords that a table of hotkeys holds.
pub open spec fn registered_chords(hotkeys: Seq<HotkeyView>) -> Set<Seq<char>> {
    Set::new(|c: Seq<char>| exists|i: int| 0 <= i < hotkeys.len() && (#[trigger] hotkeys[i]).chord == c)
}

/// The global hotkeys owned by the launcher.
pub struct ShortcutRegistry {
    hotkeys: Vec<Hotkey>,
}

impl View for ShortcutRegistry {
    type V = Seq<HotkeyView>;

    closed spec fn view(&self) -> Seq<HotkeyView> {
        Seq::new(self.hotkeys@.len(), |i: int| self.hotkeys@[i]@)
    }
}

impl ShortcutRegistry {
    /// A registry that holds no hotkey.
    pub fn new() -> (registry: ShortcutRegistry)
        ensures
            registry@ == Seq::<HotkeyView>::empty(),
    {
        let registry = ShortcutRegistry { hotkeys: Vec::new() };
        assert(registry@ =~= Seq::<HotkeyView>::empty());
        registry
    }

    /// Drops every hotkey.
    pub fn unregister_all(&mut self)
        ensures
            final(self)@ == Seq::<HotkeyView>::empty(),
    {
        self.hotkeys = Vec::new();
        assert(self@ =~= Seq::<HotkeyView>::empty());
    }

    /// Adds one hotkey after those already held.
    pub fn register(&mut self, chord: String, handler: HotkeyHandler)
        ensures
            final(self)@ == old(self)@.push(HotkeyView { chord: chord@, handler: handler@ }),
    {
        let ghost before = self@;
        let ghost added = HotkeyView { chord: chord@, handler: handler@ };
        self.hotkeys.push(Hotkey { chord, handler });
        assert(self@ =~= before.push(added));
    }

    /// The hotkeys held, in the order of their registration.
    pub fn hotkeys(&self) -> (hotkeys: &Vec<Hotkey>)
        ensures
            hotkeys@.len() == self@.len(),
            forall|i: int| 0 <= i < hotkeys@.len() ==> (#[trigger] hotkeys@[i])@ == self@[i],
    {
        &self.hotkeys
    }

    /// Brings the registry in step with the active layer: everything held
    /// before is dropped, each entry's chord is registered with a handler
    /// that appends it to the path, and the reserved chord is registered
    /// with the handler that ends the session.
    pub fn sync(&mut self, layer: &Vec<BindingEntry>)
        ensures
            final(self)@ == planned_hotkeys(layer_view(layer@)),
            registered_chords(final(self)@) == layer_chords(layer_view(layer@)).insert(
                escape_chord(),
            ),
    {
        proof {
            lemma_sync_registers_exactly(layer_view(layer@));
        }
        self.unregister_all();
        let mut i: usize = 0;
        while i < layer.len()
            invariant
                i <= layer.len(),
                self@ == Seq::new(i as nat, |j: int| entry_hotkey(layer_view(layer@)[j])),
            decreases layer.len() - i,
        {
            let chord = layer[i].chord.clone();
            let pressed = layer[i].chord.clone();
            proof {
                assert(layer_view(layer@)[i as int] == entry_view(layer@[i as int]));
            }
            self.register(chord, HotkeyHandler::AppendChord(pressed));
            assert(self@ =~= Seq::new((i + 1) as nat, |j: int| entry_hotkey(layer_view(layer@)[j])));
            i += 1;
        }
        assert(layer_view(layer@).len() == layer@.len());
        self.register(escape(), HotkeyHandler::EndSession);
    }
}

/// Runs a hotkey's handler on the navigation path. The path only grows: a
/// chord's handler appends the chord and leaves the rest as it was; the
/// reserved chord's handler leaves the path alone and asks for the end of the
/// session, which is what the result says.
pub fn fire(handler: &HotkeyHandler, path: &mut Vec<String>) -> (end: bool)
    ensures
        end == (handler@ is EndSession),
        match handler@ {
            HandlerView::AppendChord(chord) => strings_view(final(path)@) == strings_view(old(path)@).push(
                chord,
            ),
            HandlerView::EndSession => *final(path) == *old(path),
        },
{
    match handler {
        HotkeyHandler::AppendChord(chord) => {
            let ghost before = strings_view(path@);
            path.push(chord.clone());
            assert(strings_view(path@) =~= before.push(chord@));
            false
        },
        HotkeyHandler::EndSession => true,
    }
}

/// After a sync the registered chords are the chords of the active layer
/// and the reserved chord, no more and no less, whatever was registered
/// before.
pub proof fn lemma_sync_registers_exactly(layer: Seq<EntryView>)
    ensures
        registered_chords(planned_hotkeys(layer)) == layer_chords(layer).insert(escape_chord()),
{
    let plan = planned_hotkeys(layer);
    let want = layer_chords(layer).insert(escape_chord());
    assert forall|c: Seq<char>| registered_chords(plan).contains(c) implies want.contains(c) by {
        let i = choose|i: int| 0 <= i < plan.len() && (#[trigger] plan[i]).chord == c;
        if i < layer.len() {
            assert(layer[i].chord == c);
        }
    }
    assert forall|c: Seq<char>| want.contains(c) implies registered_chords(plan).contains(c) by {
        if c == escape_chord() {
            assert(plan[layer.len() as int].chord == c);
        } else {
            let i = choose|i: int| 0 <= i < layer.len() && (#[trigger] layer[i]).chord == c;
            assert(plan[i].chord == c);
        }
    }
    assert(registered_chords(plan) =~= want);
}

} // verus!
