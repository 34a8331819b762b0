//! The command dispatcher's side of the launcher: a command line is split on
//! whitespace into a program and its arguments, and the dispatch mode says
//! whether the launcher waits for the program.

use crate::binding::strings_view;
use vstd::prelude::*;

verus! {

/// Whether the launcher waits for a dispatched program.
#[derive(Clone, Copy, Debug, PartialEq, Eq, Structural)]
pub enum DispatchMode {
    /// Run the program and wait for it to finish.
    Blocking,
    /// Start the program and leave it to itself.
    Detached,
}

/// Why a command line cannot be dispatched.
#[derive(Clone, Copy, Debug, PartialEq, Eq, Structural)]
pub enum DispatchError {
    /// The command line holds no word, so it names no program.
    EmptyCommand,
}

/// What to hand to the process spawn facility.
#[derive(Clone, Debug, PartialEq, Eq)]
pub struct SpawnRequest {
    pub program: String,
    pub args: Vec<String>,
    /// Wait for the program to finish before the launcher exits.
    pub wait: bool,
}

/// The code points with the Unicode property White_Space.
pub open spec fn is_space(c: char) -> bool {
    let n = c as u32;
    ||| 0x09 <= n <= 0x0D
    ||| n == 0x20
    ||| n == 0x85
    ||| n == 0xA0
    ||| n == 0x1680
    ||| 0x2000 <= n <= 0x200A
    ||| n == 0x2028
    ||| n == 0x2029
    ||| n == 0x202F
    ||| n == 0x205F
    ||| n == 0x3000
}

/// Whether `c` separates words.
pub fn is_whitespace(c: char) -> (space: bool)
    ensures
        space == is_space(c),
{
    let n: u32 = c as u32;
    (0x09 <= n && n <= 0x0D) || n == 0x20 || n == 0x85 || n == 0xA0 || n == 0x1680 || (0x2000 <= n
        && n <= 0x200A) || n == 0x2028 || n == 0x2029 || n == 0x202F || n == 0x205F || n == 0x3000
}

/// The words of `s`: its maximal runs of characters that are not whitespace,
/// in order. Read from left to right, a whitespace character adds nothing, a
/// character that follows a character of a word extends the last word, and
/// any other character starts a new word.
pub open spec fn split_words(s: Seq<char>) -> Seq<Seq<char>>
    decreases s.len(),
{
    if s.len() == 0 {
        Seq::empty()
    } else {
        let before = split_words(s.drop_last());
        if is_space(s.last()) {
            before
        } else if s.len() >= 2 && !is_space(s[s.len() - 2]) {
            before.drop_last().push(before.last().push(s.last()))
        } else {
            before.push(seq![s.last()])
        }
    }
}

/// Splits a command line on whitespace. No quoting or escaping is known: an
/// argument that holds a space cannot be written.
pub fn split_command(command: &str) -> (words: Vec<String>)
    ensures
        strings_view(words@) == split_words(command@),
{
    let n = command.unicode_len();
    let mut words: Vec<String> = Vec::new();
    let mut start: usize = 0;
    let mut in_word = false;
    let mut i: usize = 0;
    assert(strings_view(words@) =~= Seq::<Seq<char>>::empty());
    assert(command@.take(0) =~= Seq::<char>::empty());
    while i < n
        invariant
            n == command@.len(),
            i <= n,
            start <= i,
            in_word == (i > 0 && !is_space(command@[i - 1])),
            in_word ==> start < i,
            split_words(command@.take(i as int)) == if in_word {
                strings_view(words@).push(command@.subrange(start as int, i as int))
            } else {
                strings_view(words@)
            },
        decreases n - i,
    {
        let c = command.get_char(i);
        let space = is_whitespace(c);
        let ghost done = strings_view(words@);
        proof {
            let upto = command@.take(i + 1);
            assert(upto.drop_last() =~= command@.take(i as int));
            assert(upto.last() == c);
            if i > 0 {
                assert(upto[upto.len() - 2] == command@[i - 1]);
            }
        }
        if space {
            if in_word {
                let word = command.substring_char(start, i).to_owned();
                words.push(word);
                assert(strings_view(words@) =~= done.push(command@.subrange(start as int, i as int)));
                in_word = false;
            }
        } else {
            if in_word {
                proof {
                    let open = command@.subrange(start as int, i as int);
                    assert(done.push(open).drop_last() =~= done);
                    assert(open.push(c) =~= command@.subrange(start as int, i + 1));
                }
            } else {
                start = i;
                in_word = true;
                assert(seq![c] =~= command@.subrange(i as int, i + 1));
            }
        }
        i += 1;
    }
    assert(command@.take(n as int) =~= command@);
    if in_word {
        let ghost done = strings_view(words@);
        let word = command.substring_char(start, n).to_owned();
        words.push(word);
        assert(strings_view(words@) =~= done.push(command@.subrange(start as int, n as int)));
    }
    words
}

/// What `plan_dispatch` returns for the words of a command line.
pub open spec fn plan_matches(
    words: Seq<Seq<char>>,
    mode: DispatchMode,
    plan: Result<SpawnRequest, DispatchError>,
) -> bool {
    match plan {
        Ok(request) => {
            &&& words.len() > 0
            &&& request.program@ == words[0]
            &&& strings_view(request.args@) == words.skip(1)
            &&& request.wait == (mode == DispatchMode::Blocking)
        },
        Err(error) => words.len() == 0 && error == DispatchError::EmptyCommand,
    }
}

/// Turns split words into a spawn request: the first word is the program,
/// the others are its arguments, and the launcher waits in blocking mode
/// only. Without a word there is no program to run.
pub fn plan_from_words(words: Vec<String>, mode: DispatchMode) -> (plan: Result<
    SpawnRequest,
    DispatchError,
>)
    ensures
        plan_matches(strings_view(words@), mode, plan),
{
    let mut words = words;
    if words.len() == 0 {
        return Err(DispatchError::EmptyCommand);
    }
    let ghost all = strings_view(words@);
    let program = words.remove(0);
    assert(strings_view(words@) =~= all.skip(1));
    let wait = match mode {
        DispatchMode::Blocking => true,
        DispatchMode::Detached => false,
    };
    Ok(SpawnRequest { program, args: words, wait })
}

/// Prepares the dispatch of a command line in the given mode.
pub fn plan_dispatch(command: &str, mode: DispatchMode) -> (plan: Result<
    SpawnRequest,
    DispatchError,
>)
    ensures
        plan_matches(split_words(command@), mode, plan),
{
    plan_from_words(split_command(command), mode)
}

} // verus!
