//! Keys, and the one-line text that they are typed into.

use vstd::prelude::*;

use crate::text::{head, owned};

verus! {

/// A key, as far as the overlays tell keys apart.
#[derive(Clone, Copy, Debug, PartialEq, Eq, Structural)]
pub enum KeyCode {
    Char(char),
    Enter,
    Esc,
    Tab,
    Backspace,
    Up,
    Down,
    Left,
    Right,
    Other,
}

/// A key press, and whether the control key was held.
#[derive(Clone, Copy, Debug, PartialEq, Eq, Structural)]
pub struct KeyEvent {
    pub code: KeyCode,
    pub ctrl: bool,
}

impl KeyEvent {
    pub fn new(code: KeyCode, ctrl: bool) -> (r: KeyEvent)
        ensures
            r == (KeyEvent { code, ctrl }),
    {
        KeyEvent { code, ctrl }
    }
}

/// What a key did to a text.
#[derive(Clone, Copy, Debug, PartialEq, Eq, Structural)]
pub enum InputEvent {
    Commit,
    Cancel,
    Changed,
    Ignored,
}

/// A line that is being typed; the cursor stands at its end.
#[derive(Debug)]
pub struct TextInput {
    pub text: String,
}

impl View for TextInput {
    type V = Seq<char>;

    open spec fn view(&self) -> Seq<char> {
        self.text@
    }
}

/// The text after a key, and what the key did: a character is put behind the text, Backspace
/// takes the last one away, and control-U all of them.
pub open spec fn typed(text: Seq<char>, key: KeyEvent) -> (Seq<char>, InputEvent) {
    match key.code {
        KeyCode::Enter => (text, InputEvent::Commit),
        KeyCode::Esc => (text, InputEvent::Cancel),
        KeyCode::Backspace => if text.len() > 0 {
            (text.drop_last(), InputEvent::Changed)
        } else {
            (text, InputEvent::Ignored)
        },
        KeyCode::Char(c) => if !key.ctrl {
            (text.push(c), InputEvent::Changed)
        } else if c == 'u' {
            (seq![], InputEvent::Changed)
        } else {
            (text, InputEvent::Ignored)
        },
        _ => (text, InputEvent::Ignored),
    }
}

/// The part of a text that fits a width: its end.
pub open spec fn visible(text: Seq<char>, width: int) -> Seq<char> {
    if text.len() <= width {
        text
    } else {
        text.skip(text.len() - width)
    }
}

impl TextInput {
    pub fn new(text: String) -> (r: TextInput)
        ensures
            r@ == text@,
    {
        TextInput { text }
    }

    pub fn as_str(&self) -> (r: &str)
        ensures
            r@ == self@,
    {
        self.text.as_str()
    }

    pub fn handle_key(&mut self, key: KeyEvent) -> (r: InputEvent)
        ensures
            (final(self)@, r) == typed(old(self)@, key),
    {
        match key.code {
            KeyCode::Enter => InputEvent::Commit,
            KeyCode::Esc => InputEvent::Cancel,
            KeyCode::Backspace => {
                let len: usize = self.text.as_str().unicode_len();
                if len > 0 {
                    proof {
                        assert(self.text@.take(len - 1) =~= self.text@.drop_last());
                    }
                    self.text = head(self.text.as_str(), len - 1);
                    InputEvent::Changed
                } else {
                    InputEvent::Ignored
                }
            },
            KeyCode::Char(c) => {
                if !key.ctrl {
                    self.text.push(c);
                    InputEvent::Changed
                } else if c == 'u' {
                    self.text = String::new();
                    InputEvent::Changed
                } else {
                    InputEvent::Ignored
                }
            },
            _ => InputEvent::Ignored,
        }
    }

    /// The part of the text that fits a width, and the column of the cursor behind it.
    pub fn visible_text_and_cursor(&self, width: usize) -> (r: (String, usize))
        ensures
            r.0@ == visible(self@, width as int),
            r.1 == r.0@.len(),
    {
        let len: usize = self.text.as_str().unicode_len();
        if len <= width {
            (owned(self.text.as_str()), len)
        } else {
            (crate::text::tail(self.text.as_str(), len - width), width)
        }
    }

    pub fn copy(&self) -> (r: TextInput)
        ensures
            r@ == self@,
    {
        TextInput { text: owned(self.text.as_str()) }
    }
}

/// What is typed can be taken back: Backspace undoes a character, and control-U leaves nothing.
/// Enter, Esc and every other key leave the text as it is.
pub proof fn law_typing(text: Seq<char>, c: char, key: KeyEvent)
    ensures
        ({
            let plain = KeyEvent { code: KeyCode::Char(c), ctrl: false };
            let back = KeyEvent { code: KeyCode::Backspace, ctrl: key.ctrl };
            let (longer, event) = typed(text, plain);
            &&& event == InputEvent::Changed
            &&& longer.len() == text.len() + 1 && longer.last() == c
            &&& text.is_prefix_of(longer)
            &&& typed(longer, back) == (text, InputEvent::Changed)
            &&& typed(Seq::<char>::empty(), back) == (Seq::<char>::empty(), InputEvent::Ignored)
        }),
        key.ctrl && key.code == KeyCode::Char('u') ==> typed(text, key).0.len() == 0 && typed(
            text,
            key,
        ).1 == InputEvent::Changed,
        typed(text, key).1 == InputEvent::Commit <==> key.code == KeyCode::Enter,
        typed(text, key).1 == InputEvent::Cancel <==> key.code == KeyCode::Esc,
        typed(text, key).1 != InputEvent::Changed ==> typed(text, key).0 == text,
        typed(text, key).1 == InputEvent::Changed ==> key.code == KeyCode::Backspace || (key.code
            is Char && (key.ctrl ==> key.code == KeyCode::Char('u'))),
{
    assert(text.push(c).drop_last() =~= text);
    assert(text.push(c).take(text.len() as int) =~= text);
}

/// What is visible of a text is its end, and all of it where it fits.
pub proof fn law_visible(text: Seq<char>, width: nat)
    ensures
        visible(text, width as int).is_suffix_of(text),
        visible(text, width as int).len() <= width,
        visible(text, width as int).len() < width ==> visible(text, width as int) == text,
        text.len() <= width ==> visible(text, width as int) == text,
{
    let v = visible(text, width as int);
    assert(text.skip(text.len() - v.len()) =~= v);
}

} // verus!
