//! The grammar of keys: what may stand between the braces of a placeholder.

use crate::error::TemplateError;
use crate::text::{chars_of, find_char, first_of};
use vstd::prelude::*;
use vstd::string::*;

verus! {

/// A parsed key: what the text between the braces of a placeholder asks for.
#[derive(Clone, Copy, Debug, PartialEq, Eq)]
pub enum TemplateKey<'a> {
    /// A field, defined by the overrides or the profile.
    Field(&'a str),
    /// A value taken from the response of another recipe.
    Chain(&'a str),
}

/// What a key asks for, as plain text.
pub enum KeyKind {
    Field(Seq<char>),
    Chain(Seq<char>),
}

impl<'a> View for TemplateKey<'a> {
    type V = KeyKind;

    open spec fn view(&self) -> KeyKind {
        match *self {
            TemplateKey::Field(name) => KeyKind::Field(name@),
            TemplateKey::Chain(id) => KeyKind::Chain(id@),
        }
    }
}

/// The word that stands in front of a chain's id.
pub open spec fn chains_word() -> Seq<char> {
    seq!['c', 'h', 'a', 'i', 'n', 's']
}

/// The key grammar. Cut at each `.`, a text without one is a field's name; a
/// text with exactly one, whose first part is the word `chains`, is a chain's
/// id (the part behind the dot, which may be empty); any other text is no key.
pub open spec fn parsed_key(s: Seq<char>) -> Option<KeyKind> {
    let dot = first_of(s, '.', 0);
    if dot == s.len() {
        Some(KeyKind::Field(s))
    } else if first_of(s, '.', dot + 1) == s.len() && s.subrange(0, dot) == chains_word() {
        Some(KeyKind::Chain(s.subrange(dot + 1, s.len() as int)))
    } else {
        None
    }
}

fn is_chains_word(chars: &Vec<char>, len: usize) -> (b: bool)
    requires
        len <= chars.len(),
    ensures
        b == (chars@.subrange(0, len as int) == chains_word()),
{
    let b = len == 6 && chars[0] == 'c' && chars[1] == 'h' && chars[2] == 'a' && chars[3] == 'i'
        && chars[4] == 'n' && chars[5] == 's';
    proof {
        let prefix = chars@.subrange(0, len as int);
        if b {
            assert(prefix =~= chains_word());
        } else if len != 6 {
            assert(prefix.len() != chains_word().len());
        }
    }
    b
}

impl<'a> TemplateKey<'a> {
    /// Reads the text between the braces of a placeholder as a key. Text that
    /// is no key comes back whole in the error.
    pub fn parse(s: &'a str) -> (r: Result<TemplateKey<'a>, TemplateError<&'a str>>)
        ensures
            match r {
                Ok(key) => parsed_key(s@) == Some(key@),
                Err(e) => parsed_key(s@) is None && e@ == (TemplateError::InvalidKey::<
                    Seq<char>, Seq<char>,
                > { key: s@ }),
            },
    {
        let chars = chars_of(s);
        let dot = find_char(&chars, '.', 0);
        if dot == chars.len() {
            return Ok(TemplateKey::Field(s));
        }
        let second = find_char(&chars, '.', dot + 1);
        if second == chars.len() && is_chains_word(&chars, dot) {
            let id = s.substring_char(dot + 1, chars.len());
            Ok(TemplateKey::Chain(id))
        } else {
            Err(TemplateError::InvalidKey { key: s })
        }
    }
}

} // verus!
