//! Languages supported by the server.

use crate::error::Error;
use vstd::prelude::*;

verus! {

/// Languages supported by the server.
#[derive(Clone, Copy, Debug, PartialEq, Eq, Structural)]
pub enum Language {
    Wast,
    Wat,
    Wit,
    Witx,
}

/// The language that a language-id string names, if any.
pub open spec fn language_for_id(language_id: Seq<char>) -> Option<Language> {
    if language_id == "wasm.wast"@ {
        Some(Language::Wast)
    } else if language_id == "wasm.wat"@ {
        Some(Language::Wat)
    } else if language_id == "wasm.wit"@ {
        Some(Language::Wit)
    } else if language_id == "wasm.witx"@ {
        Some(Language::Witx)
    } else {
        None
    }
}

impl Language {
    /// The language named by a language-id, or `CoreInvalidLanguageId` carrying the id.
    pub fn try_from(language_id: String) -> (res: Result<Language, Error>)
        ensures
            match language_for_id(language_id@) {
                Some(l) => res == Ok::<Language, Error>(l),
                None => res == Err::<Language, Error>(Error::CoreInvalidLanguageId(language_id)),
            },
    {
        if str_eq(language_id.as_str(), "wasm.wast") {
            Ok(Language::Wast)
        } else if str_eq(language_id.as_str(), "wasm.wat") {
            Ok(Language::Wat)
        } else if str_eq(language_id.as_str(), "wasm.wit") {
            Ok(Language::Wit)
        } else if str_eq(language_id.as_str(), "wasm.witx") {
            Ok(Language::Witx)
        } else {
            Err(Error::CoreInvalidLanguageId(language_id))
        }
    }
}

/// Whether two strings hold the same characters.
pub fn str_eq(a: &str, b: &str) -> (res: bool)
    ensures
        res == (a@ == b@),
{
    let x = crate::text::chars_of(a);
    let y = crate::text::chars_of(b);
    if x.len() != y.len() {
        return false;
    }
    let mut i: usize = 0;
    while i < x.len()
        invariant
            x@ == a@,
            y@ == b@,
            x.len() == y.len(),
            i <= x.len(),
            forall|j: int| 0 <= j < i ==> x@[j] == y@[j],
        decreases x.len() - i,
    {
        if x[i] != y[i] {
            return false;
        }
        i = i + 1;
    }
    assert(x@ =~= y@);
    true
}

} // verus!
