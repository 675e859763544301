use vstd::prelude::*;
use crate::text::{chars_of, eq_ignore_ascii_case, push_char, push_str};
use crate::text;

verus! {

/// A key as the application sees it.
#[derive(Debug, Clone, Copy, PartialEq, Eq, Structural)]
pub enum KeyCode {
    Char(char),
    Esc,
    Enter,
    Backspace,
    Delete,
    Tab,
    BackTab,
    Up,
    Down,
    Left,
    Right,
    PageUp,
    PageDown,
}

/// The text a key is written as in a configuration file: the canonical name
/// of a named key, otherwise the character itself.
pub open spec fn spec_key_name(k: KeyCode) -> Seq<char> {
    match k {
        KeyCode::Char(c) => if c == ' ' {
            "Space"@
        } else {
            seq![c]
        },
        KeyCode::Esc => "Esc"@,
        KeyCode::Enter => "Enter"@,
        KeyCode::Backspace => "Backspace"@,
        KeyCode::Delete => "Delete"@,
        KeyCode::Tab => "Tab"@,
        KeyCode::BackTab => "Shift+Tab"@,
        KeyCode::Up => "Up"@,
        KeyCode::Down => "Down"@,
        KeyCode::Left => "Left"@,
        KeyCode::Right => "Right"@,
        KeyCode::PageUp => "PageUp"@,
        KeyCode::PageDown => "PageDown"@,
    }
}

/// The key named by `s`: a canonical name or alias in any ASCII case, else
/// a single character.
pub open spec fn spec_key_from_name(s: Seq<char>) -> Option<KeyCode> {
    if text::eq_ignore_case("Space"@, s) {
        Some(KeyCode::Char(' '))
    } else if text::eq_ignore_case("Esc"@, s) || text::eq_ignore_case("escape"@, s) {
        Some(KeyCode::Esc)
    } else if text::eq_ignore_case("Enter"@, s) || text::eq_ignore_case("return"@, s) {
        Some(KeyCode::Enter)
    } else if text::eq_ignore_case("Backspace"@, s) {
        Some(KeyCode::Backspace)
    } else if text::eq_ignore_case("Delete"@, s) || text::eq_ignore_case("del"@, s) {
        Some(KeyCode::Delete)
    } else if text::eq_ignore_case("Tab"@, s) {
        Some(KeyCode::Tab)
    } else if text::eq_ignore_case("Shift+Tab"@, s) || text::eq_ignore_case("backtab"@, s) {
        Some(KeyCode::BackTab)
    } else if text::eq_ignore_case("Up"@, s) {
        Some(KeyCode::Up)
    } else if text::eq_ignore_case("Down"@, s) {
        Some(KeyCode::Down)
    } else if text::eq_ignore_case("Left"@, s) {
        Some(KeyCode::Left)
    } else if text::eq_ignore_case("Right"@, s) {
        Some(KeyCode::Right)
    } else if text::eq_ignore_case("PageUp"@, s) {
        Some(KeyCode::PageUp)
    } else if text::eq_ignore_case("PageDown"@, s) {
        Some(KeyCode::PageDown)
    } else if s.len() == 1 {
        Some(KeyCode::Char(s[0]))
    } else {
        None
    }
}

impl KeyCode {
    /// The key a configuration file names, or `None` for an unknown name.
    pub fn from_name(s: &str) -> (r: Option<KeyCode>)
        ensures
            r == spec_key_from_name(s@),
    {
        if eq_ignore_ascii_case("Space", s) {
            Some(KeyCode::Char(' '))
        } else if eq_ignore_ascii_case("Esc", s) || eq_ignore_ascii_case("escape", s) {
            Some(KeyCode::Esc)
        } else if eq_ignore_ascii_case("Enter", s) || eq_ignore_ascii_case("return", s) {
            Some(KeyCode::Enter)
        } else if eq_ignore_ascii_case("Backspace", s) {
            Some(KeyCode::Backspace)
        } else if eq_ignore_ascii_case("Delete", s) || eq_ignore_ascii_case("del", s) {
            Some(KeyCode::Delete)
        } else if eq_ignore_ascii_case("Tab", s) {
            Some(KeyCode::Tab)
        } else if eq_ignore_ascii_case("Shift+Tab", s) || eq_ignore_ascii_case("backtab", s) {
            Some(KeyCode::BackTab)
        } else if eq_ignore_ascii_case("Up", s) {
            Some(KeyCode::Up)
        } else if eq_ignore_ascii_case("Down", s) {
            Some(KeyCode::Down)
        } else if eq_ignore_ascii_case("Left", s) {
            Some(KeyCode::Left)
        } else if eq_ignore_ascii_case("Right", s) {
            Some(KeyCode::Right)
        } else if eq_ignore_ascii_case("PageUp", s) {
            Some(KeyCode::PageUp)
        } else if eq_ignore_ascii_case("PageDown", s) {
            Some(KeyCode::PageDown)
        } else {
            let cs = chars_of(s);
            if cs.len() == 1 {
                Some(KeyCode::Char(cs[0]))
            } else {
                None
            }
        }
    }

    /// The text the key is written as, as its `Display` shows it.
    pub fn name(&self) -> (r: String)
        ensures
            r@ == spec_key_name(*self),
    {
        let mut s = String::new();
        match *self {
            KeyCode::Char(c) => {
                if c == ' ' {
                    push_str(&mut s, "Space");
                } else {
                    push_char(&mut s, c);
                    assert(s@ =~= seq![c]);
                }
            },
            KeyCode::Esc => push_str(&mut s, "Esc"),
            KeyCode::Enter => push_str(&mut s, "Enter"),
            KeyCode::Backspace => push_str(&mut s, "Backspace"),
            KeyCode::Delete => push_str(&mut s, "Delete"),
            KeyCode::Tab => push_str(&mut s, "Tab"),
            KeyCode::BackTab => push_str(&mut s, "Shift+Tab"),
            KeyCode::Up => push_str(&mut s, "Up"),
            KeyCode::Down => push_str(&mut s, "Down"),
            KeyCode::Left => push_str(&mut s, "Left"),
            KeyCode::Right => push_str(&mut s, "Right"),
            KeyCode::PageUp => push_str(&mut s, "PageUp"),
            KeyCode::PageDown => push_str(&mut s, "PageDown"),
        }
        s
    }
}

proof fn lemma_single_char_is_no_name(c: char)
    ensures
        spec_key_from_name(seq![c]) == Some(KeyCode::Char(c)),
{
    reveal_strlit("Space");
    reveal_strlit("Esc");
    reveal_strlit("escape");
    reveal_strlit("Enter");
    reveal_strlit("return");
    reveal_strlit("Backspace");
    reveal_strlit("Delete");
    reveal_strlit("del");
    reveal_strlit("Tab");
    reveal_strlit("Shift+Tab");
    reveal_strlit("backtab");
    reveal_strlit("Up");
    reveal_strlit("Down");
    reveal_strlit("Left");
    reveal_strlit("Right");
    reveal_strlit("PageUp");
    reveal_strlit("PageDown");
    let s = seq![c];
    assert(text::ascii_lower_seq(s).len() == 1);
}

/// A key written out by its name reads back as the same key, so every
/// keybinding survives saving and loading the configuration.
pub proof fn lemma_key_name_round_trip(k: KeyCode)
    ensures
        spec_key_from_name(spec_key_name(k)) == Some(k),
{
    reveal_strlit("Space");
    reveal_strlit("Esc");
    reveal_strlit("escape");
    reveal_strlit("Enter");
    reveal_strlit("return");
    reveal_strlit("Backspace");
    reveal_strlit("Delete");
    reveal_strlit("del");
    reveal_strlit("Tab");
    reveal_strlit("Shift+Tab");
    reveal_strlit("backtab");
    reveal_strlit("Up");
    reveal_strlit("Down");
    reveal_strlit("Left");
    reveal_strlit("Right");
    reveal_strlit("PageUp");
    reveal_strlit("PageDown");
    match k {
        KeyCode::Char(c) => {
            if c != ' ' {
                lemma_single_char_is_no_name(c);
                assert(spec_key_name(k) == seq![c]);
                assert(spec_key_from_name(spec_key_name(k)) == Some(k));
            } else {
                assert(spec_key_name(k) == "Space"@);
                assert(text::eq_ignore_case("Space"@, "Space"@));
                assert(spec_key_from_name("Space"@) == Some(KeyCode::Char(' ')));
                assert(spec_key_from_name(spec_key_name(k)) == Some(k));
            }
        },
        _ => {
            assert(text::eq_ignore_case(spec_key_name(k), spec_key_name(k)));
            assert(text::ascii_lower_seq("Esc"@) =~= seq!['e', 's', 'c']);
            assert(text::ascii_lower_seq("Enter"@) =~= seq!['e', 'n', 't', 'e', 'r']);
            assert(text::ascii_lower_seq("Up"@) =~= seq!['u', 'p']);
            assert(text::ascii_lower_seq("Down"@) =~= seq!['d', 'o', 'w', 'n']);
            assert(text::ascii_lower_seq("Left"@) =~= seq!['l', 'e', 'f', 't']);
            assert(text::ascii_lower_seq("Tab"@) =~= seq!['t', 'a', 'b']);
            assert(text::ascii_lower_seq("del"@) =~= seq!['d', 'e', 'l']);
            assert(text::ascii_lower_seq("Right"@) =~= seq!['r', 'i', 'g', 'h', 't']);
            assert(text::ascii_lower_seq("PageUp"@) =~= seq!['p', 'a', 'g', 'e', 'u', 'p']);
            assert(text::ascii_lower_seq("Delete"@) =~= seq!['d', 'e', 'l', 'e', 't', 'e']);
            assert(text::ascii_lower_seq("escape"@) =~= seq!['e', 's', 'c', 'a', 'p', 'e']);
            assert(text::ascii_lower_seq("return"@) =~= seq!['r', 'e', 't', 'u', 'r', 'n']);
            assert(text::ascii_lower_seq("Space"@) =~= seq!['s', 'p', 'a', 'c', 'e']);
            assert(text::ascii_lower_seq("Backspace"@) =~= seq!['b', 'a', 'c', 'k', 's', 'p', 'a', 'c', 'e']);
            assert(text::ascii_lower_seq("Shift+Tab"@) =~= seq!['s', 'h', 'i', 'f', 't', '+', 't', 'a', 'b']);
            assert(text::ascii_lower_seq("backtab"@) =~= seq!['b', 'a', 'c', 'k', 't', 'a', 'b']);
            assert(text::ascii_lower_seq("PageDown"@) =~= seq!['p', 'a', 'g', 'e', 'd', 'o', 'w', 'n']);
        },
    }
}

/// A key press.
#[derive(Debug, Clone, Copy, PartialEq, Eq, Structural)]
pub struct KeyEvent {
    pub code: KeyCode,
}

impl KeyEvent {
    pub fn new(code: KeyCode) -> (r: KeyEvent)
        ensures
            r.code == code,
    {
        KeyEvent { code }
    }
}

} // verus!
