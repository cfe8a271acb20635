//! The decisions of the interaction loop: what a key asks of the editor,
//! how a prompt edits its line, whether an answer confirms saving, and when
//! the text cursor blinks.

use vstd::prelude::*;
use crate::editor::Direction;

verus! {

/// A key as the interaction loop reads it.
#[derive(Clone, Copy, Debug, PartialEq, Eq, Structural)]
pub enum Key {
    Char(char),
    Enter,
    Backspace,
    Esc,
    Up,
    Down,
    Left,
    Right,
    Other,
}

/// What a key asks of the editor.
#[derive(Clone, Copy, Debug, PartialEq, Eq, Structural)]
pub enum Command {
    /// Leave, after offering to save unsaved changes.
    Quit,
    /// Ask for a file name and save under it.
    SaveAs,
    /// Ask for a term and search for it.
    Search,
    Newline,
    DeleteBack,
    Insert(char),
    Move(Direction),
    Nothing,
}

/// The command of `key`; `control` tells that Control, and no other
/// modifier, was held.
pub open spec fn command_of(key: Key, control: bool) -> Command {
    match key {
        Key::Char(c) => if control && c == 'x' {
            Command::Quit
        } else if control && c == 'o' {
            Command::SaveAs
        } else if control && c == 'w' {
            Command::Search
        } else {
            Command::Insert(c)
        },
        Key::Enter => Command::Newline,
        Key::Backspace => Command::DeleteBack,
        Key::Up => Command::Move(Direction::Up),
        Key::Down => Command::Move(Direction::Down),
        Key::Left => Command::Move(Direction::Left),
        Key::Right => Command::Move(Direction::Right),
        Key::Esc | Key::Other => Command::Nothing,
    }
}

/// Tells what `key` asks of the editor.
pub fn command_for(key: Key, control: bool) -> (r: Command)
    ensures
        r == command_of(key, control),
{
    match key {
        Key::Char(c) => {
            if control && c == 'x' {
                Command::Quit
            } else if control && c == 'o' {
                Command::SaveAs
            } else if control && c == 'w' {
                Command::Search
            } else {
                Command::Insert(c)
            }
        },
        Key::Enter => Command::Newline,
        Key::Backspace => Command::DeleteBack,
        Key::Up => Command::Move(Direction::Up),
        Key::Down => Command::Move(Direction::Down),
        Key::Left => Command::Move(Direction::Left),
        Key::Right => Command::Move(Direction::Right),
        Key::Esc | Key::Other => Command::Nothing,
    }
}

/// The line being typed into a prompt.
pub struct Prompt {
    pub input: Vec<char>,
}

/// The prompt's line after `key`.
pub open spec fn prompt_edited(input: Seq<char>, key: Key) -> Seq<char> {
    match key {
        Key::Char(c) => input.push(c),
        Key::Backspace => if input.len() > 0 {
            input.drop_last()
        } else {
            input
        },
        _ => input,
    }
}

/// What the prompt answers after `key`: the line on Enter, nothing on
/// Escape, and no answer yet on any other key.
pub open spec fn prompt_answer(input: Seq<char>, key: Key) -> Option<Seq<char>> {
    match key {
        Key::Enter => Some(input),
        Key::Esc => Some(Seq::empty()),
        _ => None,
    }
}

impl Prompt {
    /// A prompt with an empty line.
    pub fn new() -> (r: Prompt)
        ensures
            r.input@ == Seq::<char>::empty(),
    {
        Prompt { input: Vec::new() }
    }

    /// Takes one key: Enter gives the line, Escape gives an empty answer,
    /// a character is added, Backspace removes the last one.
    pub fn feed(&mut self, key: Key) -> (r: Option<Vec<char>>)
        ensures
            final(self).input@ == prompt_edited(old(self).input@, key),
            match r {
                Some(a) => prompt_answer(old(self).input@, key) == Some(a@),
                None => prompt_answer(old(self).input@, key).is_none(),
            },
    {
        match key {
            Key::Enter => Some(self.input.clone()),
            Key::Esc => Some(Vec::new()),
            Key::Char(c) => {
                self.input.push(c);
                None
            },
            Key::Backspace => {
                self.input.pop();
                None
            },
            _ => None,
        }
    }
}

/// Whether a character has Unicode's White_Space property.
pub uninterp spec fn white_space(c: char) -> bool;

/// Relies on `char::is_whitespace`, which tells Unicode's White_Space
/// property; no ASCII letter has it.
#[verifier::external_body]
fn is_space(c: char) -> (r: bool)
    ensures
        r == white_space(c),
        ('a' <= c <= 'z' || 'A' <= c <= 'Z') ==> !r,
{
    c.is_whitespace()
}

/// The answer, without the white space around it, is a `y` of either case.
pub open spec fn confirms(answer: Seq<char>) -> bool {
    exists|i: int|
        0 <= i < answer.len() && (answer[i] == 'y' || answer[i] == 'Y') && forall|j: int|
            0 <= j < answer.len() && j != i ==> white_space(#[trigger] answer[j])
}

/// Whether an answer to "save before exit?" says yes.
pub fn confirms_save(answer: &Vec<char>) -> (r: bool)
    ensures
        r == confirms(answer@),
{
    let mut seen: bool = false;
    let mut pos: usize = 0;
    let mut i: usize = 0;
    while i < answer.len()
        invariant
            i <= answer@.len(),
            seen ==> pos < i && !white_space(answer@[pos as int]),
            forall|j: int| 0 <= j < i && !(seen && j == pos) ==> white_space(#[trigger] answer@[j]),
            forall|j: int|
                0 <= j < i && (answer@[j] == 'y' || answer@[j] == 'Y') ==> !white_space(
                    #[trigger] answer@[j],
                ),
        decreases answer@.len() - i,
    {
        if !is_space(answer[i]) {
            if seen {
                assert(!confirms(answer@)) by {
                    assert forall|k: int|
                        0 <= k < answer@.len() && (answer@[k] == 'y' || answer@[k] == 'Y')
                        implies exists|j: int|
                        0 <= j < answer@.len() && j != k && !white_space(#[trigger] answer@[j]) by {
                        if k == pos {
                            assert(!white_space(answer@[i as int]));
                        } else {
                            assert(!white_space(answer@[pos as int]));
                        }
                    }
                }
                return false;
            }
            seen = true;
            pos = i;
        }
        i += 1;
    }
    if seen {
        let c = answer[pos];
        c == 'y' || c == 'Y'
    } else {
        false
    }
}

/// How long the text cursor stays shown, or hidden, in milliseconds.
pub const BLINK_MS: u128 = 500;

/// Whether the text cursor is shown once `elapsed_ms` have passed since it
/// last changed, and whether it changes now (which restarts that count).
pub fn blink(shown: bool, elapsed_ms: u128) -> (r: (bool, bool))
    ensures
        r == (if elapsed_ms >= BLINK_MS {
            (!shown, true)
        } else {
            (shown, false)
        }),
{
    if elapsed_ms >= BLINK_MS {
        (!shown, true)
    } else {
        (shown, false)
    }
}

} // verus!
