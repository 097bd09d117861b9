//! The modifier methods of a chain and the scopes they open.
//!
//! A canonical modifier takes only a callback (`.hover(c => ...)`); an
//! argument modifier takes a string and a callback (`.media(q, c => ...)`).

use vstd::prelude::*;
use crate::ir::{Scope, SpecScope};
use crate::text::str_equals;

verus! {

/// The modifiers whose scope comes from their string argument.
#[derive(Debug, PartialEq, Eq, Clone, Copy)]
pub enum ArgModifier {
    /// `.media(query, c => ...)`
    Media,
    /// `.on(selector, c => ...)`
    On,
}

/// The scope that a canonical modifier method opens, by method name.
pub open spec fn canonical_scope_of(name: Seq<char>) -> Option<SpecScope> {
    if name == "hover"@ {
        Some(SpecScope::Pseudo(":hover"@))
    } else if name == "focus"@ {
        Some(SpecScope::Pseudo(":focus"@))
    } else if name == "focusVisible"@ {
        Some(SpecScope::Pseudo(":focus-visible"@))
    } else if name == "focusWithin"@ {
        Some(SpecScope::Pseudo(":focus-within"@))
    } else if name == "active"@ {
        Some(SpecScope::Pseudo(":active"@))
    } else if name == "disabled"@ {
        Some(SpecScope::Pseudo(":disabled"@))
    } else if name == "before"@ {
        Some(SpecScope::Pseudo("::before"@))
    } else if name == "after"@ {
        Some(SpecScope::Pseudo("::after"@))
    } else if name == "darkMode"@ {
        Some(SpecScope::Media("(prefers-color-scheme: dark)"@))
    } else {
        None
    }
}

/// The argument modifier of a method name.
pub open spec fn arg_modifier_of(name: Seq<char>) -> Option<ArgModifier> {
    if name == "media"@ {
        Some(ArgModifier::Media)
    } else if name == "on"@ {
        Some(ArgModifier::On)
    } else {
        None
    }
}

/// `s` without its leading spaces.
pub open spec fn skip_spaces(s: Seq<char>) -> Seq<char>
    decreases s.len(),
{
    if s.len() > 0 && s[0] == ' ' {
        skip_spaces(s.drop_first())
    } else {
        s
    }
}

/// `s` starts with the at-rule keyword `@media`.
pub open spec fn has_at_media(s: Seq<char>) -> bool {
    s.len() >= 6 && s.take(6) == "@media"@
}

/// A media query without a leading `@media` keyword and the spaces after it.
pub open spec fn strip_at_media(s: Seq<char>) -> Seq<char> {
    if has_at_media(s) {
        skip_spaces(s.skip(6))
    } else {
        s
    }
}

/// The scope that an argument modifier opens for its string argument.
pub open spec fn arg_modifier_scope_of(m: ArgModifier, value: Seq<char>) -> SpecScope {
    match m {
        ArgModifier::Media => SpecScope::Media(strip_at_media(value)),
        ArgModifier::On => if has_at_media(value) {
            SpecScope::Media(strip_at_media(value))
        } else {
            SpecScope::Pseudo(value)
        },
    }
}

fn pseudo(selector: &str) -> (r: Scope)
    ensures
        r@ == SpecScope::Pseudo(selector@),
{
    Scope::Pseudo { selector: String::from_str(selector) }
}

fn media(query: &str) -> (r: Scope)
    ensures
        r@ == SpecScope::Media(query@),
{
    Scope::Media { query: String::from_str(query) }
}

/// The scope of a canonical modifier method; `None` for other names.
pub fn canonical_scope(name: &str) -> (r: Option<Scope>)
    ensures
        match r {
            Some(s) => canonical_scope_of(name@) == Some(s@),
            None => canonical_scope_of(name@) is None,
        },
{
    if str_equals(name, "hover") {
        Some(pseudo(":hover"))
    } else if str_equals(name, "focus") {
        Some(pseudo(":focus"))
    } else if str_equals(name, "focusVisible") {
        Some(pseudo(":focus-visible"))
    } else if str_equals(name, "focusWithin") {
        Some(pseudo(":focus-within"))
    } else if str_equals(name, "active") {
        Some(pseudo(":active"))
    } else if str_equals(name, "disabled") {
        Some(pseudo(":disabled"))
    } else if str_equals(name, "before") {
        Some(pseudo("::before"))
    } else if str_equals(name, "after") {
        Some(pseudo("::after"))
    } else if str_equals(name, "darkMode") {
        Some(media("(prefers-color-scheme: dark)"))
    } else {
        None
    }
}

/// The argument modifier of a method name; `None` for other names.
pub fn arg_modifier(name: &str) -> (r: Option<ArgModifier>)
    ensures
        r == arg_modifier_of(name@),
{
    if str_equals(name, "media") {
        Some(ArgModifier::Media)
    } else if str_equals(name, "on") {
        Some(ArgModifier::On)
    } else {
        None
    }
}

fn starts_with_at_media(s: &str) -> (r: bool)
    ensures
        r == has_at_media(s@),
{
    let n = s.unicode_len();
    if n < 6 {
        return false;
    }
    let head = s.substring_char(0, 6);
    str_equals(head, "@media")
}

/// The scope an argument modifier opens for its string argument.
pub fn arg_modifier_scope(m: ArgModifier, value: &str) -> (r: Scope)
    ensures
        r@ == arg_modifier_scope_of(m, value@),
{
    let at_media = starts_with_at_media(value);
    match m {
        ArgModifier::On => {
            if !at_media {
                return pseudo(value);
            }
        },
        ArgModifier::Media => {},
    }
    if !at_media {
        return media(value);
    }
    let n = value.unicode_len();
    let mut i: usize = 6;
    while i < n && value.get_char(i) == ' '
        invariant
            n == value@.len(),
            6 <= i <= n,
            has_at_media(value@),
            skip_spaces(value@.skip(i as int)) == skip_spaces(value@.skip(6)),
        decreases n - i,
    {
        proof {
            assert(value@.skip(i as int).drop_first() =~= value@.skip(i as int + 1));
        }
        i = i + 1;
    }
    proof {
        assert(value@.skip(i as int) =~= value@.subrange(i as int, n as int));
    }
    media(value.substring_char(i, n))
}

} // verus!
