use arpeggio::binding::{find_entry, BindingAction, BindingEntry};
use arpeggio::engine::{escape, resolve, Resolution};

fn command(chord: &str, label: &str, line: &str) -> BindingEntry {
    BindingEntry {
        chord: chord.to_string(),
        label: label.to_string(),
        action: BindingAction::Command(line.to_string()),
    }
}

fn layer(chord: &str, label: &str, entries: Vec<BindingEntry>) -> BindingEntry {
    BindingEntry {
        chord: chord.to_string(),
        label: label.to_string(),
        action: BindingAction::SubLayer(entries),
    }
}

fn path(chords: &[&str]) -> Vec<String> {
    chords.iter().map(|c| c.to_string()).collect()
}

fn git_tree() -> Vec<BindingEntry> {
    vec![layer("g", "git", vec![command("s", "status", "git status")])]
}

fn deep_tree() -> Vec<BindingEntry> {
    vec![
        layer(
            "g",
            "git",
            vec![
                command("s", "status", "git status"),
                layer(
                    "r",
                    "remote",
                    vec![command("f", "fetch", "git fetch --all"), command("p", "push", "git push")],
                ),
            ],
        ),
        command("t", "terminal", "alacritty"),
        layer("e", "empty", vec![]),
    ]
}

#[test]
fn escape_is_the_reserved_chord() {
    assert_eq!(escape(), "escape");
}

#[test]
fn empty_path_shows_the_root() {
    let tree = deep_tree();
    match resolve(&tree, &path(&[])) {
        Resolution::ActiveLayer(active) => assert_eq!(active, &tree),
        other => panic!("expected the root layer, got {:?}", other),
    }
}

#[test]
fn one_chord_opens_the_git_layer() {
    let tree = git_tree();
    match resolve(&tree, &path(&["g"])) {
        Resolution::ActiveLayer(active) => {
            assert_eq!(active.len(), 1);
            assert_eq!(active[0].chord, "s");
            assert_eq!(active[0].label, "status");
            assert_eq!(active[0].action, BindingAction::Command("git status".to_string()));
        }
        other => panic!("expected a layer, got {:?}", other),
    }
}

#[test]
fn two_chords_dispatch_git_status() {
    let tree = git_tree();
    let expected = "git status".to_string();
    assert_eq!(resolve(&tree, &path(&["g", "s"])), Resolution::Dispatch(&expected));
}

#[test]
fn escape_at_root_terminates() {
    let tree = git_tree();
    assert_eq!(resolve(&tree, &path(&["escape"])), Resolution::Terminate);
}

#[test]
fn unbound_chord_at_root_terminates() {
    let tree = git_tree();
    assert_eq!(resolve(&tree, &path(&["x"])), Resolution::Terminate);
}

#[test]
fn unbound_chord_at_depth_terminates() {
    let tree = deep_tree();
    assert_eq!(resolve(&tree, &path(&["g", "x"])), Resolution::Terminate);
    assert_eq!(resolve(&tree, &path(&["g", "r", "s"])), Resolution::Terminate);
    assert_eq!(resolve(&tree, &path(&["g", "x", "s"])), Resolution::Terminate);
    assert_eq!(resolve(&tree, &path(&["e", "g"])), Resolution::Terminate);
}

#[test]
fn escape_terminates_at_any_depth() {
    let tree = deep_tree();
    assert_eq!(resolve(&tree, &path(&["g", "escape"])), Resolution::Terminate);
    assert_eq!(resolve(&tree, &path(&["g", "r", "escape"])), Resolution::Terminate);
    assert_eq!(resolve(&tree, &path(&["g", "escape", "s"])), Resolution::Terminate);
    assert_eq!(resolve(&tree, &path(&["escape", "g", "s"])), Resolution::Terminate);
    assert_eq!(resolve(&tree, &path(&["x", "escape"])), Resolution::Terminate);
}

#[test]
fn chords_after_a_command_are_ignored() {
    let tree = deep_tree();
    let status = "git status".to_string();
    let terminal = "alacritty".to_string();
    assert_eq!(resolve(&tree, &path(&["g", "s", "x"])), Resolution::Dispatch(&status));
    assert_eq!(resolve(&tree, &path(&["g", "s", "escape"])), Resolution::Dispatch(&status));
    assert_eq!(resolve(&tree, &path(&["t", "g"])), Resolution::Dispatch(&terminal));
}

#[test]
fn descending_by_hand_gives_the_active_layer() {
    let tree = deep_tree();
    let by_hand = match &tree[0].action {
        BindingAction::SubLayer(git) => match &git[1].action {
            BindingAction::SubLayer(remote) => remote,
            BindingAction::Command(_) => panic!("remote is a layer"),
        },
        BindingAction::Command(_) => panic!("git is a layer"),
    };
    assert_eq!(resolve(&tree, &path(&["g", "r"])), Resolution::ActiveLayer(by_hand));
    assert_eq!(by_hand.len(), 2);
    let fetch = "git fetch --all".to_string();
    assert_eq!(resolve(&tree, &path(&["g", "r", "f"])), Resolution::Dispatch(&fetch));
}

#[test]
fn an_empty_sublayer_can_be_active() {
    let tree = deep_tree();
    match resolve(&tree, &path(&["e"])) {
        Resolution::ActiveLayer(active) => assert!(active.is_empty()),
        other => panic!("expected a layer, got {:?}", other),
    }
}

#[test]
fn resolving_twice_gives_the_same() {
    let tree = deep_tree();
    for chords in [vec![], vec!["g"], vec!["g", "r"], vec!["g", "s"], vec!["q"], vec!["escape"]] {
        let pressed = path(&chords);
        assert_eq!(resolve(&tree, &pressed), resolve(&tree, &pressed));
    }
}

#[test]
fn first_of_two_equal_chords_wins() {
    let tree = vec![
        command("a", "first", "echo first"),
        command("a", "second", "echo second"),
        layer("a", "third", vec![]),
    ];
    let first = "echo first".to_string();
    assert_eq!(resolve(&tree, &path(&["a"])), Resolution::Dispatch(&first));
    let found = find_entry(&tree, &"a".to_string()).expect("bound");
    assert_eq!(found.label, "first");
}

#[test]
fn a_binding_of_the_reserved_chord_is_never_reached() {
    let tree = vec![command("escape", "shadowed", "echo never")];
    assert_eq!(resolve(&tree, &path(&["escape"])), Resolution::Terminate);
}

#[test]
fn find_entry_tells_bound_from_unbound() {
    let tree = deep_tree();
    assert_eq!(find_entry(&tree, &"t".to_string()), Some(&tree[1]));
    assert_eq!(find_entry(&tree, &"s".to_string()), None);
    assert_eq!(find_entry(&Vec::new(), &"t".to_string()), None);
}

#[test]
fn chords_are_compared_exactly() {
    let tree = vec![command("ctrl+g", "git", "git gui")];
    assert_eq!(resolve(&tree, &path(&["ctrl+G"])), Resolution::Terminate);
    assert_eq!(resolve(&tree, &path(&["ctrl+g "])), Resolution::Terminate);
    let gui = "git gui".to_string();
    assert_eq!(resolve(&tree, &path(&["ctrl+g"])), Resolution::Dispatch(&gui));
}
