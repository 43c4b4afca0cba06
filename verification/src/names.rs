//! Identifier derivation for the generated module tree.
//!
//! Interface, package, type and function names arrive in kebab-ish interface
//! style and are re-cased for Rust: snake case for modules and functions,
//! upper camel case for types and traits, shouty snake case for flag
//! constants. The case conversions themselves are delegated to the `heck`
//! crate; their results are named, never restated.

use crate::text::str_eq;
use vstd::prelude::*;

verus! {

/// What `heck`'s snake-case conversion returns for a string.
pub uninterp spec fn snake_of(name: Seq<char>) -> Seq<char>;

/// What `heck`'s upper-camel-case conversion returns for a string.
pub uninterp spec fn upper_camel_of(name: Seq<char>) -> Seq<char>;

/// What `heck`'s shouty-snake-case conversion returns for a string.
pub uninterp spec fn shouty_snake_of(name: Seq<char>) -> Seq<char>;

/// Relies on `heck::ToSnakeCase` for `str`: the result depends on the
/// characters alone, and an empty string stays empty.
#[verifier::external_body]
pub fn to_snake_case(name: &str) -> (r: String)
    ensures
        r@ == snake_of(name@),
        name@.len() == 0 ==> r@.len() == 0,
{
    heck::ToSnakeCase::to_snake_case(name)
}

/// Relies on `heck::ToUpperCamelCase` for `str`: the result depends on the
/// characters alone, and an empty string stays empty.
#[verifier::external_body]
pub fn to_upper_camel_case(name: &str) -> (r: String)
    ensures
        r@ == upper_camel_of(name@),
        name@.len() == 0 ==> r@.len() == 0,
{
    heck::ToUpperCamelCase::to_upper_camel_case(name)
}

/// Relies on `heck::ToShoutySnakeCase` for `str`: the result depends on the
/// characters alone, and an empty string stays empty.
#[verifier::external_body]
pub fn to_shouty_snake_case(name: &str) -> (r: String)
    ensures
        r@ == shouty_snake_of(name@),
        name@.len() == 0 ==> r@.len() == 0,
{
    heck::ToShoutySnakeCase::to_shouty_snake_case(name)
}

/// Whether a snake-cased name collides with a Rust keyword and therefore
/// needs a trailing underscore before it can serve as an identifier.
pub open spec fn spec_is_keyword(s: Seq<char>) -> bool {
    ||| s == "as"@
    ||| s == "break"@
    ||| s == "const"@
    ||| s == "continue"@
    ||| s == "crate"@
    ||| s == "dyn"@
    ||| s == "else"@
    ||| s == "enum"@
    ||| s == "extern"@
    ||| s == "false"@
    ||| s == "fn"@
    ||| s == "for"@
    ||| s == "if"@
    ||| s == "impl"@
    ||| s == "in"@
    ||| s == "let"@
    ||| s == "loop"@
    ||| s == "match"@
    ||| s == "mod"@
    ||| s == "move"@
    ||| s == "mut"@
    ||| s == "pub"@
    ||| s == "ref"@
    ||| s == "return"@
    ||| s == "self"@
    ||| s == "static"@
    ||| s == "struct"@
    ||| s == "super"@
    ||| s == "trait"@
    ||| s == "true"@
    ||| s == "type"@
    ||| s == "unsafe"@
    ||| s == "use"@
    ||| s == "where"@
    ||| s == "while"@
    ||| s == "async"@
    ||| s == "await"@
    ||| s == "try"@
    ||| s == "box"@
    ||| s == "macro"@
    ||| s == "virtual"@
    ||| s == "yield"@
}

fn is_keyword(t: &str) -> (r: bool)
    ensures
        r == spec_is_keyword(t@),
{
    str_eq(t, "as") || str_eq(t, "break") || str_eq(t, "const") || str_eq(t, "continue")
        || str_eq(t, "crate") || str_eq(t, "dyn") || str_eq(t, "else") || str_eq(t, "enum")
        || str_eq(t, "extern") || str_eq(t, "false") || str_eq(t, "fn") || str_eq(t, "for")
        || str_eq(t, "if") || str_eq(t, "impl") || str_eq(t, "in") || str_eq(t, "let")
        || str_eq(t, "loop") || str_eq(t, "match") || str_eq(t, "mod") || str_eq(t, "move")
        || str_eq(t, "mut") || str_eq(t, "pub") || str_eq(t, "ref") || str_eq(t, "return")
        || str_eq(t, "self") || str_eq(t, "static") || str_eq(t, "struct") || str_eq(t, "super")
        || str_eq(t, "trait") || str_eq(t, "true") || str_eq(t, "type") || str_eq(t, "unsafe")
        || str_eq(t, "use") || str_eq(t, "where") || str_eq(t, "while") || str_eq(t, "async")
        || str_eq(t, "await") || str_eq(t, "try") || str_eq(t, "box") || str_eq(t, "macro")
        || str_eq(t, "virtual") || str_eq(t, "yield")
}

/// The Rust identifier for an interface-style name: its snake-cased form,
/// with a trailing underscore when that form is a keyword.
pub open spec fn spec_rust_ident(name: Seq<char>) -> Seq<char> {
    if spec_is_keyword(snake_of(name)) {
        snake_of(name) + "_"@
    } else {
        snake_of(name)
    }
}

/// Turns an interface-style name into a usable Rust identifier.
pub fn to_rust_ident(name: &str) -> (r: String)
    ensures
        r@ == spec_rust_ident(name@),
{
    let mut snake: String = to_snake_case(name);
    if is_keyword(snake.as_str()) {
        snake.append("_");
    }
    snake
}

} // verus!
