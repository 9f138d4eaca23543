//! Documents held by the server: their language and their text.

use crate::language::Language;
use crate::text::utf8_len;
use ropey::Rope;
use vstd::prelude::*;

verus! {

#[verifier::external_type_specification]
#[verifier::external_body]
pub struct ExRope(Rope);

/// The characters that a rope holds.
pub uninterp spec fn rope_chars(rope: Rope) -> Seq<char>;

/// `Rope::from(String)`: a rope holding exactly the string's characters.
#[verifier::external_body]
fn rope_from_string(text: String) -> (res: Rope)
    ensures
        rope_chars(res) == text@,
{
    Rope::from(text)
}

/// `Rope::len_bytes`: the number of bytes of the rope's UTF-8 text.
#[verifier::external_body]
fn rope_len_bytes(rope: &Rope) -> (res: usize)
    ensures
        res == utf8_len(rope_chars(*rope)),
{
    rope.len_bytes()
}

/// `Rope::chunks` collected into a `String`: the rope's text.
#[verifier::external_body]
fn rope_to_string(rope: &Rope) -> (res: String)
    ensures
        res@ == rope_chars(*rope),
{
    rope.chunks().collect()
}

/// An open document.
pub struct Document {
    /// The language of the document.
    pub language: Language,
    /// The text of the document.
    pub content: Rope,
}

impl Document {
    /// The characters of the document.
    pub open spec fn text(&self) -> Seq<char> {
        rope_chars(self.content)
    }

    /// A document of the given language holding `text`.
    pub fn new(language: Language, text: String) -> (res: Document)
        ensures
            res.language == language,
            res.text() == text@,
    {
        Document { language, content: rope_from_string(text) }
    }

    /// Length of the document's text in bytes.
    pub fn len_bytes(&self) -> (res: usize)
        ensures
            res == utf8_len(self.text()),
    {
        rope_len_bytes(&self.content)
    }

    /// The document's text as a `String`.
    pub fn to_text(&self) -> (res: String)
        ensures
            res@ == self.text(),
    {
        rope_to_string(&self.content)
    }
}

} // verus!
