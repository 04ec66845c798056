//! Editing the text of an input field with the keyboard: the text and the
//! cursor after a key press.
use vstd::prelude::*;

use crate::event::{KeyCode, ALT, CONTROL, META, NO_MODIFIERS, SHIFT};
use crate::text::unicode_alphanumeric;
use tui_input::{Input, InputRequest};

verus! {

/// An edit of a text field, as the text-input widget knows it.
#[derive(Clone, Copy, Debug, PartialEq, Eq, Structural)]
pub enum EditRequest {
    InsertChar(char),
    GoToPrevChar,
    GoToNextChar,
    GoToPrevWord,
    GoToNextWord,
    GoToStart,
    GoToEnd,
    DeletePrevChar,
    DeleteNextChar,
    DeletePrevWord,
    DeleteNextWord,
    DeleteLine,
    DeleteTillEnd,
}

/// The edit a key asks for in a text field, as the text-input widget maps
/// terminal keys: printable characters (alone or with Shift) are inserted;
/// Backspace, Delete, the arrows, Home and End, and their Emacs-style
/// Control and Meta chords, move the cursor or delete; other keys edit
/// nothing.
pub open spec fn key_edit(code: KeyCode, mods: u8) -> Option<EditRequest> {
    match code {
        KeyCode::Backspace => if mods == NO_MODIFIERS {
            Some(EditRequest::DeletePrevChar)
        } else if mods == META || mods == ALT {
            Some(EditRequest::DeletePrevWord)
        } else {
            None
        },
        KeyCode::Delete => if mods == NO_MODIFIERS {
            Some(EditRequest::DeleteNextChar)
        } else if mods == CONTROL {
            Some(EditRequest::DeleteNextWord)
        } else {
            None
        },
        KeyCode::Left => if mods == NO_MODIFIERS {
            Some(EditRequest::GoToPrevChar)
        } else if mods == CONTROL {
            Some(EditRequest::GoToPrevWord)
        } else {
            None
        },
        KeyCode::Right => if mods == NO_MODIFIERS {
            Some(EditRequest::GoToNextChar)
        } else if mods == CONTROL {
            Some(EditRequest::GoToNextWord)
        } else {
            None
        },
        KeyCode::Home => if mods == NO_MODIFIERS {
            Some(EditRequest::GoToStart)
        } else {
            None
        },
        KeyCode::End => if mods == NO_MODIFIERS {
            Some(EditRequest::GoToEnd)
        } else {
            None
        },
        KeyCode::Char(c) => if mods == NO_MODIFIERS || mods == SHIFT {
            Some(EditRequest::InsertChar(c))
        } else if mods == CONTROL {
            if c == 'h' {
                Some(EditRequest::DeletePrevChar)
            } else if c == 'b' {
                Some(EditRequest::GoToPrevChar)
            } else if c == 'f' {
                Some(EditRequest::GoToNextChar)
            } else if c == 'u' {
                Some(EditRequest::DeleteLine)
            } else if c == 'w' {
                Some(EditRequest::DeletePrevWord)
            } else if c == 'k' {
                Some(EditRequest::DeleteTillEnd)
            } else if c == 'a' {
                Some(EditRequest::GoToStart)
            } else if c == 'e' {
                Some(EditRequest::GoToEnd)
            } else {
                None
            }
        } else if mods == META {
            if c == 'b' {
                Some(EditRequest::GoToPrevWord)
            } else if c == 'f' {
                Some(EditRequest::GoToNextWord)
            } else if c == 'd' {
                Some(EditRequest::DeletePrevWord)
            } else {
                None
            }
        } else {
            None
        },
        _ => None,
    }
}

/// Moving left from `i` past word characters.
pub open spec fn back_over_word(v: Seq<char>, i: int, word: spec_fn(char) -> bool) -> int
    decreases i,
{
    if i <= 0 || i > v.len() {
        if i <= 0 { 0 } else { i }
    } else if word(v[i - 1]) {
        back_over_word(v, i - 1, word)
    } else {
        i
    }
}

/// Moving left from `i` past characters that are not word characters.
pub open spec fn back_over_gap(v: Seq<char>, i: int, word: spec_fn(char) -> bool) -> int
    decreases i,
{
    if i <= 0 || i > v.len() {
        if i <= 0 { 0 } else { i }
    } else if !word(v[i - 1]) {
        back_over_gap(v, i - 1, word)
    } else {
        i
    }
}

/// Moving right from `i` past word characters.
pub open spec fn forward_over_word(v: Seq<char>, i: int, word: spec_fn(char) -> bool) -> int
    decreases v.len() - i,
{
    if i < 0 || i >= v.len() {
        i
    } else if word(v[i]) {
        forward_over_word(v, i + 1, word)
    } else {
        i
    }
}

/// Moving right from `i` past characters that are not word characters.
pub open spec fn forward_over_gap(v: Seq<char>, i: int, word: spec_fn(char) -> bool) -> int
    decreases v.len() - i,
{
    if i < 0 || i >= v.len() {
        i
    } else if !word(v[i]) {
        forward_over_gap(v, i + 1, word)
    } else {
        i
    }
}

/// Where the word before `c` starts: left past any gap, then past the word.
pub open spec fn prev_word_start(v: Seq<char>, c: int, word: spec_fn(char) -> bool) -> int {
    back_over_word(v, back_over_gap(v, c, word), word)
}

/// Where the next word after `c` starts: right past the rest of the
/// current word, then past the gap.
pub open spec fn next_word_start(v: Seq<char>, c: int, word: spec_fn(char) -> bool) -> int {
    forward_over_gap(v, forward_over_word(v, c, word), word)
}

/// The text and cursor after an edit. The cursor is first kept within the
/// text; inserting puts the character at the cursor and moves past it;
/// deleting a character removes the one before (or at) the cursor; word
/// moves and deletions go by runs of `word` characters; moving stops at
/// either end.
pub open spec fn edited(
    value: Seq<char>,
    cursor: nat,
    req: EditRequest,
    word: spec_fn(char) -> bool,
) -> (Seq<char>, nat) {
    let n = value.len();
    let c: nat = if cursor <= n {
        cursor
    } else {
        n
    };
    match req {
        EditRequest::InsertChar(ch) => (
            value.subrange(0, c as int).push(ch) + value.subrange(c as int, n as int),
            c + 1,
        ),
        EditRequest::DeletePrevChar => if c == 0 {
            (value, c)
        } else {
            (value.remove(c - 1), (c - 1) as nat)
        },
        EditRequest::DeleteNextChar => if c == n {
            (value, c)
        } else {
            (value.remove(c as int), c)
        },
        EditRequest::GoToPrevChar => if c == 0 {
            (value, c)
        } else {
            (value, (c - 1) as nat)
        },
        EditRequest::GoToNextChar => if c == n {
            (value, c)
        } else {
            (value, c + 1)
        },
        EditRequest::GoToPrevWord => (value, prev_word_start(value, c as int, word) as nat),
        EditRequest::GoToNextWord => (value, next_word_start(value, c as int, word) as nat),
        EditRequest::GoToStart => (value, 0),
        EditRequest::GoToEnd => (value, n),
        EditRequest::DeletePrevWord => {
            let i = prev_word_start(value, c as int, word);
            (value.subrange(0, i) + value.subrange(c as int, n as int), i as nat)
        },
        EditRequest::DeleteNextWord => (
            value.subrange(0, c as int) + value.subrange(next_word_start(value, c as int, word), n as int),
            c,
        ),
        EditRequest::DeleteLine => if n == 0 {
            (value, c)
        } else {
            (Seq::empty(), 0)
        },
        EditRequest::DeleteTillEnd => (value.subrange(0, c as int), c),
    }
}

/// The edit a key asks for in a text field.
pub fn edit_request(code: KeyCode, mods: u8) -> (r: Option<EditRequest>)
    ensures
        r == key_edit(code, mods),
{
    match code {
        KeyCode::Backspace => if mods == NO_MODIFIERS {
            Some(EditRequest::DeletePrevChar)
        } else if mods == META || mods == ALT {
            Some(EditRequest::DeletePrevWord)
        } else {
            None
        },
        KeyCode::Delete => if mods == NO_MODIFIERS {
            Some(EditRequest::DeleteNextChar)
        } else if mods == CONTROL {
            Some(EditRequest::DeleteNextWord)
        } else {
            None
        },
        KeyCode::Left => if mods == NO_MODIFIERS {
            Some(EditRequest::GoToPrevChar)
        } else if mods == CONTROL {
            Some(EditRequest::GoToPrevWord)
        } else {
            None
        },
        KeyCode::Right => if mods == NO_MODIFIERS {
            Some(EditRequest::GoToNextChar)
        } else if mods == CONTROL {
            Some(EditRequest::GoToNextWord)
        } else {
            None
        },
        KeyCode::Home => if mods == NO_MODIFIERS {
            Some(EditRequest::GoToStart)
        } else {
            None
        },
        KeyCode::End => if mods == NO_MODIFIERS {
            Some(EditRequest::GoToEnd)
        } else {
            None
        },
        KeyCode::Char(c) => if mods == NO_MODIFIERS || mods == SHIFT {
            Some(EditRequest::InsertChar(c))
        } else if mods == CONTROL {
            if c == 'h' {
                Some(EditRequest::DeletePrevChar)
            } else if c == 'b' {
                Some(EditRequest::GoToPrevChar)
            } else if c == 'f' {
                Some(EditRequest::GoToNextChar)
            } else if c == 'u' {
                Some(EditRequest::DeleteLine)
            } else if c == 'w' {
                Some(EditRequest::DeletePrevWord)
            } else if c == 'k' {
                Some(EditRequest::DeleteTillEnd)
            } else if c == 'a' {
                Some(EditRequest::GoToStart)
            } else if c == 'e' {
                Some(EditRequest::GoToEnd)
            } else {
                None
            }
        } else if mods == META {
            if c == 'b' {
                Some(EditRequest::GoToPrevWord)
            } else if c == 'f' {
                Some(EditRequest::GoToNextWord)
            } else if c == 'd' {
                Some(EditRequest::DeletePrevWord)
            } else {
                None
            }
        } else {
            None
        },
        _ => None,
    }
}

/// Applies an edit with `tui_input::Input::handle`, on an input holding
/// `value` with its cursor set by `with_cursor` (which keeps it within the
/// text). The contract restates what the crate's source does for these
/// requests: `edited`, where word boundaries follow std's
/// `char::is_alphanumeric`, named [`unicode_alphanumeric`].
#[verifier::external_body]
pub(crate) fn input_handle(value: String, cursor: usize, req: EditRequest) -> (r: (String, usize))
    requires
        value@.len() < usize::MAX,
    ensures
        (r.0@, r.1 as nat) == edited(value@, cursor as nat, req, |ch: char| unicode_alphanumeric(ch)),
{
    let mut input = Input::new(value).with_cursor(cursor);
    input.handle(match req {
        EditRequest::InsertChar(c) => InputRequest::InsertChar(c),
        EditRequest::GoToPrevChar => InputRequest::GoToPrevChar,
        EditRequest::GoToNextChar => InputRequest::GoToNextChar,
        EditRequest::GoToPrevWord => InputRequest::GoToPrevWord,
        EditRequest::GoToNextWord => InputRequest::GoToNextWord,
        EditRequest::GoToStart => InputRequest::GoToStart, EditRequest::GoToEnd => InputRequest::GoToEnd,
        EditRequest::DeletePrevChar => InputRequest::DeletePrevChar,
        EditRequest::DeleteNextChar => InputRequest::DeleteNextChar,
        EditRequest::DeletePrevWord => InputRequest::DeletePrevWord,
        EditRequest::DeleteNextWord => InputRequest::DeleteNextWord,
        EditRequest::DeleteLine => InputRequest::DeleteLine, EditRequest::DeleteTillEnd => InputRequest::DeleteTillEnd,
    });
    (input.value().to_string(), input.cursor())
}

/// Typing a character and then Backspace gives back the text and the
/// cursor, for a cursor within the text.
pub proof fn lemma_insert_then_delete(value: Seq<char>, cursor: nat, c: char, word: spec_fn(char) -> bool)
    requires
        cursor <= value.len(),
    ensures
        ({
            let (v1, c1) = edited(value, cursor, EditRequest::InsertChar(c), word);
            edited(v1, c1, EditRequest::DeletePrevChar, word) == (value, cursor)
        }),
{
    let (v1, c1) = edited(value, cursor, EditRequest::InsertChar(c), word);
    assert(v1.len() == value.len() + 1);
    assert(v1.remove(cursor as int) =~= value);
}

/// Moving the cursor left and then right gives back the cursor, when it
/// does not stand at the start.
pub proof fn lemma_left_then_right(value: Seq<char>, cursor: nat, word: spec_fn(char) -> bool)
    requires
        0 < cursor <= value.len(),
    ensures
        ({
            let (v1, c1) = edited(value, cursor, EditRequest::GoToPrevChar, word);
            edited(v1, c1, EditRequest::GoToNextChar, word) == (value, cursor)
        }),
{
}

} // verus!
