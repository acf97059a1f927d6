//! Rendering of one key press as a display token, and the timing rule that
//! chooses the separator put in front of it.
//!
//! A key press carries a raw identifier — either a named key or a bare
//! vendor code — and possibly the text the key produced.  A single visible
//! character is kept verbatim (the space as the literal `<Space>`); anything
//! else falls back to the bracketed identifier, with three vendor codes
//! remapped to friendlier tokens.

use vstd::prelude::*;

use crate::text::{
    dec_chars, is_visible_char, push_char, push_dec, exec_is_visible_char,
};
use vstd::string::StrSliceExecFns;
use vstd::string::StringExecFns;

verus! {

/// The raw identifier of a key: a name known to the key table, or the bare
/// code of a key outside it.
pub enum RawKey {
    Named(String),
    Code(u32),
}

/// Mathematical view of a `RawKey`.
pub enum RawKeyView {
    Named(Seq<char>),
    Code(u32),
}

impl View for RawKey {
    type V = RawKeyView;

    open spec fn view(&self) -> RawKeyView {
        match self {
            RawKey::Named(s) => RawKeyView::Named(s@),
            RawKey::Code(n) => RawKeyView::Code(*n),
        }
    }
}

/// One key-press notification: the raw identifier and, when the key produced
/// text, that text.
pub struct KeyEvent {
    pub name: Option<String>,
    pub key: RawKey,
}

/// Mathematical view of a `KeyEvent`.
pub struct KeyEventView {
    pub name: Option<Seq<char>>,
    pub key: RawKeyView,
}

impl View for KeyEvent {
    type V = KeyEventView;

    open spec fn view(&self) -> KeyEventView {
        KeyEventView {
            name: match &self.name {
                Some(s) => Some(s@),
                None => None,
            },
            key: self.key@,
        }
    }
}

/// The token standing for the literal space character.
pub open spec fn space_token() -> Seq<char> {
    seq!['<', 'S', 'p', 'a', 'c', 'e', '>']
}

pub open spec fn unknown_prefix() -> Seq<char> {
    seq!['<', 'U', 'n', 'k', 'n', 'o', 'w', 'n', '(']
}

/// The bracketed fallback rendering of a raw identifier.
pub open spec fn bracketed(key: RawKeyView) -> Seq<char> {
    match key {
        RawKeyView::Named(s) => seq!['<'] + s + seq!['>'],
        RawKeyView::Code(n) => unknown_prefix() + dec_chars(n as int) + seq![')', '>'],
    }
}

/// Exactly one character, and one that prints as itself.
pub open spec fn is_single_visible(s: Seq<char>) -> bool {
    s.len() == 1 && is_visible_char(s[0])
}

/// The display token of a key press, by priority: a single visible character
/// verbatim (the space as `space_token`), else the bracketed identifier,
/// with the codes 244, 243 and 93 of codeless keys remapped.
pub open spec fn token_text(name: Option<Seq<char>>, key: RawKeyView) -> Seq<char> {
    match name {
        Some(s) => if is_single_visible(s) {
            if s[0] == ' ' {
                space_token()
            } else {
                s
            }
        } else {
            bracketed(key)
        },
        None => match key {
            RawKeyView::Code(n) => if n == 244 {
                seq!['<', 'F', '>']
            } else if n == 243 {
                seq!['<', 'H', '>']
            } else if n == 93 {
                seq!['<', 'A', 'p', 'p', '>']
            } else {
                bracketed(key)
            },
            RawKeyView::Named(_) => bracketed(key),
        },
    }
}

fn bracket(key: &RawKey) -> (r: String)
    ensures
        r@ == bracketed(key@),
{
    match key {
        RawKey::Named(s) => {
            let mut r = String::new();
            push_char(&mut r, '<');
            r.append(s.as_str());
            push_char(&mut r, '>');
            proof {
                assert(r@ =~= seq!['<'] + s@ + seq!['>']);
            }
            r
        },
        RawKey::Code(n) => {
            let mut r = String::new();
            push_char(&mut r, '<');
            push_char(&mut r, 'U');
            push_char(&mut r, 'n');
            push_char(&mut r, 'k');
            push_char(&mut r, 'n');
            push_char(&mut r, 'o');
            push_char(&mut r, 'w');
            push_char(&mut r, 'n');
            push_char(&mut r, '(');
            proof {
                assert(r@ =~= unknown_prefix());
            }
            push_dec(&mut r, *n);
            push_char(&mut r, ')');
            push_char(&mut r, '>');
            proof {
                assert(r@ =~= unknown_prefix() + dec_chars(*n as int) + seq![')', '>']);
            }
            r
        },
    }
}

/// Derives the display token of one key press.  Total: every name and
/// identifier yields exactly the token `token_text` gives it.
pub fn derive_token(ev: &KeyEvent) -> (r: String)
    ensures
        r@ == token_text(ev@.name, ev@.key),
{
    match &ev.name {
        Some(name) => {
            let single = name.as_str().unicode_len() == 1 && exec_is_visible_char(
                name.as_str().get_char(0),
            );
            if single {
                if name.as_str().get_char(0) == ' ' {
                    let r = String::from_str("<Space>");
                    proof {
                        reveal_strlit("<Space>");
                        assert(r@ =~= space_token());
                    }
                    r
                } else {
                    name.clone()
                }
            } else {
                bracket(&ev.key)
            }
        },
        None => {
            match &ev.key {
                RawKey::Code(n) => {
                    if *n == 244 {
                        let r = String::from_str("<F>");
                        proof {
                            reveal_strlit("<F>");
                            assert(r@ =~= seq!['<', 'F', '>']);
                        }
                        r
                    } else if *n == 243 {
                        let r = String::from_str("<H>");
                        proof {
                            reveal_strlit("<H>");
                            assert(r@ =~= seq!['<', 'H', '>']);
                        }
                        r
                    } else if *n == 93 {
                        let r = String::from_str("<App>");
                        proof {
                            reveal_strlit("<App>");
                            assert(r@ =~= seq!['<', 'A', 'p', 'p', '>']);
                        }
                        r
                    } else {
                        bracket(&ev.key)
                    }
                },
                RawKey::Named(_) => bracket(&ev.key),
            }
        },
    }
}

} // verus!
