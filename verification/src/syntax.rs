//! The syntax tree that a scan walks: for every node its kind, whether
//! the grammar names it, the bytes of the source that it spans, and its
//! children in order.

use crate::text::window_is;
use crate::text::chars_of;
use vstd::prelude::*;
use vstd::slice::slice_subrange;
use vstd::utf8::decode_utf8;
use vstd::utf8::encode_utf8;
use vstd::utf8::encode_utf8_decode_utf8;
use vstd::utf8::valid_utf8;

verus! {

/// The kind of a node. The kinds that a scan tells apart have a variant
/// each; every other kind is kept under the name that the grammar gives it.
#[derive(Debug)]
pub enum NodeKind {
    Comment,
    VariableAssignment,
    Number,
    Word,
    String,
    StringContent,
    SimpleExpansion,
    Other(std::string::String),
}

/// Whether `tag` is the grammar's name of a kind that has a variant of its own.
pub open spec fn is_known_tag(tag: Seq<char>) -> bool {
    ||| tag == "comment"@
    ||| tag == "variable_assignment"@
    ||| tag == "number"@
    ||| tag == "word"@
    ||| tag == "string"@
    ||| tag == "string_content"@
    ||| tag == "simple_expansion"@
}

impl NodeKind {
    /// The name that the grammar gives this kind.
    pub open spec fn tag_text(self) -> Seq<char> {
        match self {
            NodeKind::Comment => "comment"@,
            NodeKind::VariableAssignment => "variable_assignment"@,
            NodeKind::Number => "number"@,
            NodeKind::Word => "word"@,
            NodeKind::String => "string"@,
            NodeKind::StringContent => "string_content"@,
            NodeKind::SimpleExpansion => "simple_expansion"@,
            NodeKind::Other(tag) => tag@,
        }
    }

    /// The kind that the grammar calls `tag`.
    pub fn from_tag(tag: &str) -> (kind: NodeKind)
        ensures
            kind.tag_text() == tag@,
            kind is Other <==> !is_known_tag(tag@),
    {
        let chars = chars_of(tag);
        let len = chars.len();
        assert(chars@.subrange(0, len as int) =~= tag@);
        if window_is(&chars, 0, len, "comment") {
            NodeKind::Comment
        } else if window_is(&chars, 0, len, "variable_assignment") {
            NodeKind::VariableAssignment
        } else if window_is(&chars, 0, len, "number") {
            NodeKind::Number
        } else if window_is(&chars, 0, len, "word") {
            NodeKind::Word
        } else if window_is(&chars, 0, len, "string") {
            NodeKind::String
        } else if window_is(&chars, 0, len, "string_content") {
            NodeKind::StringContent
        } else if window_is(&chars, 0, len, "simple_expansion") {
            NodeKind::SimpleExpansion
        } else {
            NodeKind::Other(tag.to_owned())
        }
    }

    /// The name that the grammar gives this kind.
    pub fn tag(&self) -> (tag: std::string::String)
        ensures
            tag@ == self.tag_text(),
    {
        match self {
            NodeKind::Comment => "comment".to_owned(),
            NodeKind::VariableAssignment => "variable_assignment".to_owned(),
            NodeKind::Number => "number".to_owned(),
            NodeKind::Word => "word".to_owned(),
            NodeKind::String => "string".to_owned(),
            NodeKind::StringContent => "string_content".to_owned(),
            NodeKind::SimpleExpansion => "simple_expansion".to_owned(),
            NodeKind::Other(tag) => tag.clone(),
        }
    }
}

/// A node of the syntax tree, with the subtrees below it.
#[derive(Debug)]
pub struct SyntaxNode {
    pub kind: NodeKind,
    /// Whether the node stands for a named rule of the grammar, as opposed
    /// to a piece of punctuation.
    pub named: bool,
    pub start_byte: usize,
    pub end_byte: usize,
    pub children: Vec<SyntaxNode>,
}

/// The text that the bytes `[start, end)` of the source hold: nothing when
/// the span does not lie in the source or its bytes are not text by
/// themselves.
pub open spec fn slice_text(source: Seq<char>, start: int, end: int) -> Option<Seq<char>> {
    let bytes = encode_utf8(source);
    if 0 <= start <= end <= bytes.len() && valid_utf8(bytes.subrange(start, end)) {
        Some(decode_utf8(bytes.subrange(start, end)))
    } else {
        None
    }
}

/// `core::str::from_utf8`, which succeeds on exactly the byte strings that
/// are valid UTF-8 and then hands back the same bytes as text.
#[verifier::external_body]
fn text_of_bytes<'a>(bytes: &'a [u8]) -> (r: Option<&'a str>)
    ensures
        r is Some <==> valid_utf8(bytes@),
        r matches Some(s) ==> encode_utf8(s@) == bytes@,
{
    core::str::from_utf8(bytes).ok()
}

/// The text of the source between the bytes `start` and `end`.
pub fn source_text<'a>(source: &'a str, start: usize, end: usize) -> (r: Option<&'a str>)
    ensures
        match slice_text(source@, start as int, end as int) {
            Some(text) => r matches Some(s) && s@ == text,
            None => r is None,
        },
{
    let bytes = source.as_bytes();
    if start <= end && end <= bytes.len() {
        let r = text_of_bytes(slice_subrange(bytes, start, end));
        proof {
            if let Some(s) = r {
                encode_utf8_decode_utf8(s@);
            }
        }
        r
    } else {
        None
    }
}

} // verus!
