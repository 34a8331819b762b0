use arpeggio::binding::{BindingAction, BindingEntry};
use arpeggio::config::{all_chords, check_root, collect_chords, ConfigError};

fn command(chord: &str, label: &str, line: &str) -> BindingEntry {
    BindingEntry {
        chord: chord.to_string(),
        label: label.to_string(),
        action: BindingAction::Command(line.to_string()),
    }
}

fn layer(chord: &str, label: &str, entries: Vec<BindingEntry>) -> BindingEntry {
    BindingEntry {
        chord: chord.to_string(),
        label: label.to_string(),
        action: BindingAction::SubLayer(entries),
    }
}

fn strings(words: &[&str]) -> Vec<String> {
    words.iter().map(|w| w.to_string()).collect()
}

fn tree() -> Vec<BindingEntry> {
    vec![
        layer(
            "ctrl+g",
            "git",
            vec![
                command("s", "status", "git status"),
                layer("r", "remote", vec![command("f", "fetch", "git fetch")]),
                command("p", "push", "git push"),
            ],
        ),
        command("t", "terminal", "alacritty"),
        layer("e", "empty", vec![]),
    ]
}

#[test]
fn empty_root_is_refused() {
    assert_eq!(check_root(&Vec::new()), Err(ConfigError::EmptyRoot));
}

#[test]
fn root_with_an_entry_is_accepted() {
    assert_eq!(check_root(&tree()), Ok(()));
    assert_eq!(check_root(&vec![layer("e", "empty", vec![])]), Ok(()));
}

#[test]
fn all_chords_lists_parents_before_children() {
    assert_eq!(all_chords(&tree()), strings(&["ctrl+g", "s", "r", "f", "p", "t", "e"]));
}

#[test]
fn all_chords_of_nothing_is_nothing() {
    assert_eq!(all_chords(&Vec::new()), Vec::<String>::new());
}

#[test]
fn all_chords_keeps_repeated_chords() {
    let tree = vec![command("a", "one", "x"), layer("a", "two", vec![command("a", "three", "y")])];
    assert_eq!(all_chords(&tree), strings(&["a", "a", "a"]));
}

#[test]
fn collect_chords_appends_to_what_is_there() {
    let mut out = strings(&["kept"]);
    collect_chords(&tree(), &mut out);
    assert_eq!(out, strings(&["kept", "ctrl+g", "s", "r", "f", "p", "t", "e"]));
}
