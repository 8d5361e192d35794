//! Helpers shared by the library and by programs that use it.

use crate::document::{
    de_error_message, ser_error_message, toml_from_str, toml_parse, toml_render, toml_to_string,
    within, TomlValue, MAX_NESTING,
};
use crate::nesting::{nests_within, spec_nesting};
use vstd::prelude::*;
use vstd::string::*;

verus! {

/// The strings of a list, as string slices.
pub fn as_str_slice(input: &[String]) -> (r: Vec<&str>)
    ensures
        r@.len() == input@.len(),
        forall|i: int| 0 <= i < input@.len() ==> r@[i]@ == input@[i]@,
{
    let mut out: Vec<&str> = Vec::new();
    let mut i: usize = 0;
    while i < input.len()
        invariant
            i <= input@.len(),
            out@.len() == i,
            forall|j: int| 0 <= j < i ==> out@[j]@ == input@[j]@,
        decreases input@.len() - i,
    {
        out.push(input[i].as_str());
        i += 1;
    }
    out
}

/// The tree of a TOML document, or a message for a text that is none or that is nested too
/// deeply.
pub fn deserialize_toml(toml: &str) -> (r: Result<TomlValue, String>)
    ensures
        r is Ok <==> spec_nesting(toml.spec_bytes()) <= MAX_NESTING && toml_parse(toml@) is Some,
        r matches Ok(v) ==> Some(v.view()) == toml_parse(toml@),
{
    if !nests_within(toml, MAX_NESTING) {
        return Err("document is nested too deeply".to_string());
    }
    match toml_from_str(toml) {
        Ok(v) => Ok(v),
        Err(e) => Err(de_error_message(&e)),
    }
}

/// The text of a tree as a TOML document, or a message for a tree that has none or that has
/// too many levels.
pub fn serialize_toml(obj: &TomlValue) -> (r: Result<String, String>)
    ensures
        r is Ok <==> within(obj.view(), MAX_NESTING as nat) && toml_render(obj.view()) is Some,
        r matches Ok(s) ==> Some(s@) == toml_render(obj.view()),
{
    if !obj.fits(MAX_NESTING) {
        return Err("document is nested too deeply".to_string());
    }
    match toml_to_string(obj) {
        Ok(s) => Ok(s),
        Err(e) => Err(ser_error_message(&e)),
    }
}

} // verus!
