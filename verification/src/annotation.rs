//! The comments that a scan reads: `#/ <type>` annotates the assignment
//! beside it, `#[<directive>]` changes how the next statement is checked or
//! declares a variable outright.

use crate::diagnostic::ParseErrType;
use crate::diagnostic::ParseErrTypeView;
use crate::lattice::BashType;
use crate::text::chars_of;
use crate::text::count_char;
use crate::text::count_in;
use crate::text::find_char;
use crate::text::find_in;
use crate::text::lemma_find_bounds;
use crate::text::lemma_trim_bounds;
use crate::text::trim_hi;
use crate::text::trim_lo;
use crate::text::trim_window;
use crate::text::window_is;
use std::ops::Range;
use vstd::prelude::*;

verus! {

/// The scalar type that `word` names, if it names one.
pub open spec fn scalar_named(word: Seq<char>) -> Option<BashType> {
    if word == "string"@ {
        Some(BashType::String)
    } else if word == "int"@ {
        Some(BashType::Integer)
    } else if word == "bool"@ {
        Some(BashType::Bool)
    } else if word == "any"@ {
        Some(BashType::Any)
    } else {
        None
    }
}

/// The type that the window `[lo, hi)` of `s` spells.
///
/// Surrounding whitespace is ignored. A window that is not the name of a
/// scalar is split at its first `|` into the two sides of a union, so that
/// `a|b|c` is the union of `a` with the union of `b` and `c`.
pub open spec fn parse_type_in(s: Seq<char>, lo: int, hi: int) -> Option<BashType>
    decreases hi - lo,
{
    if 0 <= lo <= hi <= s.len() {
        let a = trim_lo(s, lo, hi);
        let b = trim_hi(s, a, hi);
        let bar = find_in(s, a, b, '|');
        if scalar_named(s.subrange(a, b)) is Some {
            scalar_named(s.subrange(a, b))
        } else if bar < b {
            proof {
                lemma_trim_bounds(s, lo, hi);
                lemma_trim_bounds(s, a, hi);
                lemma_find_bounds(s, a, b, '|');
            }
            match (parse_type_in(s, a, bar), parse_type_in(s, bar + 1, b)) {
                (Some(left), Some(right)) => Some(BashType::Or(Box::new(left), Box::new(right))),
                _ => None,
            }
        } else {
            None
        }
    } else {
        None
    }
}

/// The type that `s` spells, if it spells one.
pub open spec fn parse_type(s: Seq<char>) -> Option<BashType> {
    parse_type_in(s, 0, s.len() as int)
}

fn type_in_window(chars: &Vec<char>, lo: usize, hi: usize) -> (r: Option<BashType>)
    requires
        lo <= hi <= chars.len(),
    ensures
        r == parse_type_in(chars@, lo as int, hi as int),
    decreases hi - lo,
{
    let (a, b) = trim_window(chars, lo, hi);
    if window_is(chars, a, b, "string") {
        return Some(BashType::String);
    }
    if window_is(chars, a, b, "int") {
        return Some(BashType::Integer);
    }
    if window_is(chars, a, b, "bool") {
        return Some(BashType::Bool);
    }
    if window_is(chars, a, b, "any") {
        return Some(BashType::Any);
    }
    let bar = find_char(chars, a, b, '|');
    if bar < b {
        let left = type_in_window(chars, a, bar);
        let right = type_in_window(chars, bar + 1, b);
        match (left, right) {
            (Some(l), Some(r)) => Some(BashType::Or(Box::new(l), Box::new(r))),
            _ => None,
        }
    } else {
        None
    }
}

/// Reads a type expression: `string`, `int`, `bool`, `any`, or several of
/// them joined by `|`. Text that spells no type is reported as malformed.
pub fn type_from_string(input_type: &str) -> (r: Result<BashType, ParseErrType>)
    ensures
        match parse_type(input_type@) {
            Some(t) => r == Ok::<BashType, ParseErrType>(t),
            None => r matches Err(e) && e@ == ParseErrTypeView::MalformedTypeExpression(
                input_type@,
            ),
        },
{
    let chars = chars_of(input_type);
    match type_in_window(&chars, 0, chars.len()) {
        Some(t) => Ok(t),
        None => Err(ParseErrType::MalformedTypeExpression(input_type.to_owned())),
    }
}

/// Which of the two comment forms a comment is written in.
#[derive(Debug, PartialEq, Eq, Clone, Copy)]
pub enum CommentKind {
    /// `#/ ...`: the type of the assignment beside it.
    Annotation,
    /// `#[...`: an instruction to the scan.
    Directive,
}

/// A comment that a scan reads, without its prefix and trimmed.
#[derive(Debug)]
pub struct Comment {
    pub kind: CommentKind,
    pub text: String,
    pub range: Range<usize>,
}

/// [`Comment`] with its text as a sequence of characters.
pub struct CommentView {
    pub kind: CommentKind,
    pub text: Seq<char>,
    pub range: Range<usize>,
}

impl View for Comment {
    type V = CommentView;

    open spec fn view(&self) -> CommentView {
        CommentView { kind: self.kind, text: self.text@, range: self.range }
    }
}

/// The form of the comment `raw`, if it is one that a scan reads.
pub open spec fn comment_kind(raw: Seq<char>) -> Option<CommentKind> {
    if raw.len() >= 2 && raw[0] == '#' && raw[1] == '/' {
        Some(CommentKind::Annotation)
    } else if raw.len() >= 2 && raw[0] == '#' && raw[1] == '[' {
        Some(CommentKind::Directive)
    } else {
        None
    }
}

/// What follows the two characters of the prefix, trimmed.
pub open spec fn comment_text(raw: Seq<char>) -> Seq<char> {
    let lo = trim_lo(raw, 2, raw.len() as int);
    raw.subrange(lo, trim_hi(raw, lo, raw.len() as int))
}

/// The comment that the text `raw` of a comment node at `range` stands for.
pub open spec fn spec_read_comment(raw: Seq<char>, range: Range<usize>) -> Option<CommentView> {
    match comment_kind(raw) {
        Some(kind) => Some(CommentView { kind, text: comment_text(raw), range }),
        None => None,
    }
}

/// Reads the comment `raw`, found at `range`. A comment that begins with
/// neither `#/` nor `#[` is passed over.
pub fn read_comment(raw: &str, range: Range<usize>) -> (r: Option<Comment>)
    ensures
        match spec_read_comment(raw@, range) {
            Some(c) => r matches Some(comment) && comment@ == c,
            None => r is None,
        },
{
    let chars = chars_of(raw);
    if chars.len() < 2 || chars[0] != '#' {
        return None;
    }
    let kind = if chars[1] == '/' {
        CommentKind::Annotation
    } else if chars[1] == '[' {
        CommentKind::Directive
    } else {
        return None;
    };
    let (lo, hi) = trim_window(&chars, 2, chars.len());
    let text = raw.substring_char(lo, hi).to_owned();
    Some(Comment { kind, text, range })
}

/// What a directive asks for.
#[derive(Debug)]
pub enum Directive {
    /// `force]`: accept the next statement whatever its types.
    Force,
    /// `set_var(name,type)]`: declare the type of a variable.
    SetVar { name: String, type_text: String },
    /// `set_var(...)]` with other than two arguments.
    WrongArity { received: usize },
    /// Anything else; it is passed over.
    Unknown,
}

/// [`Directive`] with its texts as sequences of characters.
pub enum DirectiveView {
    Force,
    SetVar { name: Seq<char>, type_text: Seq<char> },
    WrongArity { received: usize },
    Unknown,
}

impl View for Directive {
    type V = DirectiveView;

    open spec fn view(&self) -> DirectiveView {
        match *self {
            Directive::Force => DirectiveView::Force,
            Directive::SetVar { name, type_text } => DirectiveView::SetVar {
                name: name@,
                type_text: type_text@,
            },
            Directive::WrongArity { received } => DirectiveView::WrongArity { received },
            Directive::Unknown => DirectiveView::Unknown,
        }
    }
}

/// What the text of a directive comment asks for.
///
/// The text must end with `]`. Before it stands the command: `force`, or
/// `set_var(` and `)` around arguments that are separated by commas. The
/// arguments are taken as they stand, whitespace included.
pub open spec fn directive_of(text: Seq<char>) -> DirectiveView {
    let end = text.len() - 1;
    if text.len() == 0 || text[end] != ']' {
        DirectiveView::Unknown
    } else if text.subrange(0, end) == "force"@ {
        DirectiveView::Force
    } else if end > 8 && text.subrange(0, 8) == "set_var("@ && text[end - 1] == ')' {
        let commas = count_in(text, 8, end - 1, ',');
        let comma = find_in(text, 8, end - 1, ',');
        if commas == 1 {
            DirectiveView::SetVar {
                name: text.subrange(8, comma),
                type_text: text.subrange(comma + 1, end - 1),
            }
        } else {
            DirectiveView::WrongArity { received: (commas + 1) as usize }
        }
    } else {
        DirectiveView::Unknown
    }
}

/// Reads the text of a directive comment.
pub fn parse_directive(text: &str) -> (d: Directive)
    ensures
        d@ == directive_of(text@),
{
    let chars = chars_of(text);
    let len = chars.len();
    if len == 0 || chars[len - 1] != ']' {
        return Directive::Unknown;
    }
    let end = len - 1;
    if window_is(&chars, 0, end, "force") {
        return Directive::Force;
    }
    if end > 8 && window_is(&chars, 0, 8, "set_var(") && chars[end - 1] == ')' {
        let commas = count_char(&chars, 8, end - 1, ',');
        if commas == 1 {
            let comma = find_char(&chars, 8, end - 1, ',');
            proof {
                lemma_find_bounds(chars@, 8, end - 1, ',');
                lemma_single_occurrence(chars@, 8, end - 1, ',');
            }
            let name = text.substring_char(8, comma).to_owned();
            let type_text = text.substring_char(comma + 1, end - 1).to_owned();
            Directive::SetVar { name, type_text }
        } else {
            Directive::WrongArity { received: commas + 1 }
        }
    } else {
        Directive::Unknown
    }
}

/// A character that occurs in a window is found inside it.
proof fn lemma_single_occurrence(s: Seq<char>, lo: int, hi: int, c: char)
    requires
        0 <= lo <= hi <= s.len(),
        count_in(s, lo, hi, c) > 0,
    ensures
        find_in(s, lo, hi, c) < hi,
    decreases hi - lo,
{
    if lo < hi && s[lo] != c {
        lemma_single_occurrence(s, lo + 1, hi, c);
    }
}

} // verus!
