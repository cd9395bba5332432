//! The options of `#[reliakit(...)]` attributes on fields.

use super::model::FieldAttr;
use crate::chars::str_eq;
use vstd::prelude::*;

verus! {

/// The message for `rename = ""`.
pub const RENAME_EMPTY: &'static str = "reliakit-derive: `rename` needs a non-empty string literal";

/// The message for a `rename` value that is not a string literal.
pub const RENAME_NOT_STRING: &'static str = "reliakit-derive: `rename` must be a string literal, e.g. `rename = \"id\"`";

/// The message for `rename` given without a value.
pub const RENAME_NO_VALUE: &'static str = "reliakit-derive: `rename` must be written `rename = \"...\"`";

/// The message for an option other than `rename` and `skip`.
pub const UNKNOWN_OPTION: &'static str = "reliakit-derive: unknown `#[reliakit(...)]` field option (expected `rename = \"...\"` or `skip`)";

/// The text between a leading and a trailing `"`, when `s` has both.
pub open spec fn quoted_inner(s: Seq<char>) -> Option<Seq<char>> {
    if s.len() >= 2 && s[0] == '"' && s[s.len() - 1] == '"' {
        Some(s.subrange(1, s.len() - 1))
    } else {
        None
    }
}

/// The value of `rename = <literal>` from the literal's rendered text: the
/// text inside the quotes, which must not be empty.
pub open spec fn rename_value(rendered: Seq<char>) -> Result<Seq<char>, Seq<char>> {
    match quoted_inner(rendered) {
        Some(v) => if v.len() > 0 {
            Ok(v)
        } else {
            Err(RENAME_EMPTY@)
        },
        None => Err(RENAME_NOT_STRING@),
    }
}

/// The text inside one pair of surrounding quotes, or `None`.
pub fn strip_quotes(s: &str) -> (r: Option<&str>)
    ensures
        match quoted_inner(s@) {
            Some(v) => r matches Some(t) && t@ == v,
            None => r is None,
        },
{
    let n = s.unicode_len();
    if n >= 2 && s.get_char(0) == '"' && s.get_char(n - 1) == '"' {
        Some(s.substring_char(1, n - 1))
    } else {
        None
    }
}

/// Validates the value of `rename = <literal>` from the literal's rendered
/// text (a string literal renders with its quotes).
pub fn parse_rename_value(rendered: &str) -> (r: Result<String, String>)
    ensures
        match (r, rename_value(rendered@)) {
            (Ok(v), Ok(w)) => v@ == w,
            (Err(e), Err(m)) => e@ == m,
            _ => false,
        },
{
    match strip_quotes(rendered) {
        Some(value) => if value.unicode_len() > 0 {
            Ok(value.to_owned())
        } else {
            Err(RENAME_EMPTY.to_owned())
        },
        None => Err(RENAME_NOT_STRING.to_owned()),
    }
}

/// Applies one parsed `#[reliakit(...)]` option to `attr`. `name` is the
/// option identifier and `value` the rendered text of its `= "..."` argument,
/// if any. On a reject, `attr` is left as it was.
pub fn apply_field_option(attr: &mut FieldAttr, name: &str, value: Option<&str>) -> (r: Result<
    (),
    String,
>)
    ensures
        if name@ == "skip"@ {
            &&& r is Ok
            &&& final(attr).skip
            &&& final(attr).rename == old(attr).rename
        } else if name@ == "rename"@ {
            match value {
                Some(l) => match rename_value(l@) {
                    Ok(v) => {
                        &&& r is Ok
                        &&& final(attr).rename matches Some(x) && x@ == v
                        &&& final(attr).skip == old(attr).skip
                    },
                    Err(m) => r matches Err(e) && e@ == m && *final(attr) == *old(attr),
                },
                None => r matches Err(e) && e@ == RENAME_NO_VALUE@ && *final(attr) == *old(attr),
            }
        } else {
            r matches Err(e) && e@ == UNKNOWN_OPTION@ && *final(attr) == *old(attr)
        },
{
    if str_eq(name, "skip") {
        attr.skip = true;
        Ok(())
    } else if str_eq(name, "rename") {
        match value {
            Some(literal) => match parse_rename_value(literal) {
                Ok(v) => {
                    attr.rename = Some(v);
                    Ok(())
                },
                Err(e) => Err(e),
            },
            None => Err(RENAME_NO_VALUE.to_owned()),
        }
    } else {
        Err(UNKNOWN_OPTION.to_owned())
    }
}

} // verus!
