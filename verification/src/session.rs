//! The session: which state a path of chords has brought it to, and what the
//! driver that owns the window and the process has to do next.

use crate::binding::{layer_chords, layer_view, strings_view, BindingEntry, EntryView};
use crate::dispatch::{
    plan_dispatch, plan_matches, split_words, DispatchError, DispatchMode, SpawnRequest,
};
use crate::engine::{
    escape_chord, lemma_resolve_concat, resolve, resolve_spec, Resolution, ResolutionView,
};
use crate::shortcuts::{planned_hotkeys, registered_chords, HotkeyView, ShortcutRegistry};
use vstd::prelude::*;

verus! {

/// The code with which the process exits on every path that ends a session:
/// dismissal and completed dispatch are not told apart.
pub const EXIT_CODE: i32 = 0;

/// The states of a session. There is no way back to `AwaitingInput`.
#[derive(Clone, Copy, Debug, PartialEq, Eq, Structural)]
pub enum SessionState {
    /// No chord has been pressed yet.
    AwaitingInput,
    /// Chords have been pressed and a layer is active.
    Navigating,
    /// A command was reached.
    Dispatching,
    /// The session is over.
    Terminated,
}

/// The state of a session whose path has `pressed` chords and resolves to
/// `resolution`.
pub open spec fn state_of(pressed: nat, resolution: ResolutionView) -> SessionState {
    match resolution {
        ResolutionView::ActiveLayer(_) => if pressed == 0 {
            SessionState::AwaitingInput
        } else {
            SessionState::Navigating
        },
        ResolutionView::Dispatch(_) => SessionState::Dispatching,
        ResolutionView::Terminate => SessionState::Terminated,
    }
}

/// The state that the chords pressed so far have brought the session to.
pub fn session_state(tree: &Vec<BindingEntry>, path: &Vec<String>) -> (state: SessionState)
    ensures
        state == state_of(path@.len(), resolve_spec(layer_view(tree@), strings_view(path@))),
{
    match resolve(tree, path) {
        Resolution::ActiveLayer(_) => if path.len() == 0 {
            SessionState::AwaitingInput
        } else {
            SessionState::Navigating
        },
        Resolution::Dispatch(_) => SessionState::Dispatching,
        Resolution::Terminate => SessionState::Terminated,
    }
}

/// What the driver does next.
#[derive(Clone, Debug, PartialEq, Eq)]
pub enum Step<'a> {
    /// Show this layer and bring the global hotkeys in step with it.
    Present(&'a Vec<BindingEntry>),
    /// Hand this request to the process spawn facility, then exit.
    Run(SpawnRequest),
    /// Exit without running anything.
    Exit,
    /// The command that was reached cannot be run: fail loudly.
    Fail(DispatchError),
}

/// `step` is what a session that resolved to `resolution` asks of the driver
/// in the given dispatch mode.
pub open spec fn step_matches(resolution: ResolutionView, mode: DispatchMode, step: Step) -> bool {
    match resolution {
        ResolutionView::ActiveLayer(active) => step matches Step::Present(layer) && layer_view(
            layer@,
        ) == active,
        ResolutionView::Terminate => step is Exit,
        ResolutionView::Dispatch(command) => match step {
            Step::Run(request) => plan_matches(split_words(command), mode, Ok(request)),
            Step::Fail(error) => plan_matches(split_words(command), mode, Err(error)),
            _ => false,
        },
    }
}

/// Turns a resolution into the driver's next step.
pub fn step_for<'a>(resolution: Resolution<'a>, mode: DispatchMode) -> (step: Step<'a>)
    ensures
        step_matches(resolution@, mode, step),
{
    match resolution {
        Resolution::ActiveLayer(layer) => Step::Present(layer),
        Resolution::Terminate => Step::Exit,
        Resolution::Dispatch(command) => match plan_dispatch(command.as_str(), mode) {
            Ok(request) => Step::Run(request),
            Err(error) => Step::Fail(error),
        },
    }
}

/// Replays the path against the tree and says what the driver does next.
pub fn next_step<'a>(tree: &'a Vec<BindingEntry>, path: &Vec<String>, mode: DispatchMode) -> (step:
    Step<'a>)
    ensures
        step_matches(resolve_spec(layer_view(tree@), strings_view(path@)), mode, step),
{
    step_for(resolve(tree, path), mode)
}

/// What a registry holds after a refresh that resolved to `resolution`:
/// where a layer is active, the hotkeys of that layer and the reserved one,
/// with nothing left of an earlier layer; else what it held before.
pub open spec fn registry_follows(
    resolution: ResolutionView,
    before: Seq<HotkeyView>,
    after: Seq<HotkeyView>,
) -> bool {
    match resolution {
        ResolutionView::ActiveLayer(active) => {
            &&& after == planned_hotkeys(active)
            &&& registered_chords(after) == layer_chords(active).insert(escape_chord())
        },
        _ => after == before,
    }
}

/// One turn of the session: replays the path against the tree, brings the
/// registry in step with the layer that is active, if one is, and says what
/// the driver does next.
pub fn refresh<'a>(
    tree: &'a Vec<BindingEntry>,
    path: &Vec<String>,
    mode: DispatchMode,
    registry: &mut ShortcutRegistry,
) -> (step: Step<'a>)
    ensures
        step_matches(resolve_spec(layer_view(tree@), strings_view(path@)), mode, step),
        registry_follows(
            resolve_spec(layer_view(tree@), strings_view(path@)),
            old(registry)@,
            final(registry)@,
        ),
{
    match resolve(tree, path) {
        Resolution::ActiveLayer(layer) => {
            registry.sync(layer);
            Step::Present(layer)
        },
        ended => step_for(ended, mode),
    }
}

/// Once a path has ended the session or reached a command, no further chord
/// changes that.
pub proof fn lemma_end_is_final(tree: Seq<EntryView>, path: Seq<Seq<char>>, more: Seq<Seq<char>>)
    requires
        !(resolve_spec(tree, path) is ActiveLayer),
    ensures
        resolve_spec(tree, path + more) == resolve_spec(tree, path),
{
    lemma_resolve_concat(tree, path, more);
}

/// After a chord has been pressed the session never awaits its first input
/// again.
pub proof fn lemma_no_way_back(tree: Seq<EntryView>, path: Seq<Seq<char>>, chord: Seq<char>)
    ensures
        state_of(path.push(chord).len(), resolve_spec(tree, path.push(chord)))
            != SessionState::AwaitingInput,
{
}

} // verus!
