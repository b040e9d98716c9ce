//! What a scan reports: the errors that stop the handling of one node,
//! and the diagnostics that a scan collects.

use crate::declaration::Method;
use crate::declaration::TypeDeclaration;
use crate::lattice::BashType;
use std::ops::Range;
use vstd::prelude::*;
use vstd::string::StringExecFns;

verus! {

/// Why the handling of a node was given up.
#[derive(Debug)]
pub enum ParseErrType {
    /// A directive was given the wrong number of arguments.
    MissingArgument { expected: usize, received: usize },
    /// The bytes of a node are not valid text.
    InvalidUnicode,
    /// An expansion names a variable that has no binding.
    UnknownVariable(String),
    /// The value of an assignment is of a kind that no type is inferred for.
    UnsupportedExpression(String),
    /// An annotation does not spell a type.
    MalformedTypeExpression(String),
}

/// [`ParseErrType`] with its texts as sequences of characters.
pub enum ParseErrTypeView {
    MissingArgument { expected: usize, received: usize },
    InvalidUnicode,
    UnknownVariable(Seq<char>),
    UnsupportedExpression(Seq<char>),
    MalformedTypeExpression(Seq<char>),
}

impl View for ParseErrType {
    type V = ParseErrTypeView;

    open spec fn view(&self) -> ParseErrTypeView {
        match *self {
            ParseErrType::MissingArgument { expected, received } => {
                ParseErrTypeView::MissingArgument { expected, received }
            },
            ParseErrType::InvalidUnicode => ParseErrTypeView::InvalidUnicode,
            ParseErrType::UnknownVariable(name) => ParseErrTypeView::UnknownVariable(name@),
            ParseErrType::UnsupportedExpression(kind) => ParseErrTypeView::UnsupportedExpression(
                kind@,
            ),
            ParseErrType::MalformedTypeExpression(text) => {
                ParseErrTypeView::MalformedTypeExpression(text@)
            },
        }
    }
}

/// An error together with the span of bytes of the node that it is about.
#[derive(Debug)]
pub struct ParseError {
    pub err_type: ParseErrType,
    pub start: usize,
    pub end: usize,
}

/// [`ParseError`] with its texts as sequences of characters.
pub struct ParseErrorView {
    pub err_type: ParseErrTypeView,
    pub start: usize,
    pub end: usize,
}

impl View for ParseError {
    type V = ParseErrorView;

    open spec fn view(&self) -> ParseErrorView {
        ParseErrorView { err_type: self.err_type@, start: self.start, end: self.end }
    }
}

/// One report of a scan. `offset` is the byte at which the report is shown.
#[derive(Debug)]
pub enum Diagnostic {
    /// An annotation does not contain the type that was inferred beside it.
    TypeMismatch {
        offset: usize,
        specified: BashType,
        specified_range: Range<usize>,
        inferred: BashType,
        inferred_range: Range<usize>,
    },
    /// A variable was bound again with a type that does not contain the
    /// type of its first binding.
    Redeclaration { offset: usize, name: String, previous: TypeDeclaration, later: TypeDeclaration },
    /// The handling of a node was given up.
    Parse { offset: usize, error: ParseError },
}

/// [`Diagnostic`] with its texts as sequences of characters.
pub enum DiagnosticView {
    TypeMismatch {
        offset: usize,
        specified: BashType,
        specified_range: Range<usize>,
        inferred: BashType,
        inferred_range: Range<usize>,
    },
    Redeclaration {
        offset: usize,
        name: Seq<char>,
        previous: TypeDeclaration,
        later: TypeDeclaration,
    },
    Parse { offset: usize, error: ParseErrorView },
}

impl View for Diagnostic {
    type V = DiagnosticView;

    open spec fn view(&self) -> DiagnosticView {
        match *self {
            Diagnostic::TypeMismatch {
                offset,
                specified,
                specified_range,
                inferred,
                inferred_range,
            } => DiagnosticView::TypeMismatch {
                offset,
                specified,
                specified_range,
                inferred,
                inferred_range,
            },
            Diagnostic::Redeclaration { offset, name, previous, later } => {
                DiagnosticView::Redeclaration { offset, name: name@, previous, later }
            },
            Diagnostic::Parse { offset, error } => DiagnosticView::Parse { offset, error: error@ },
        }
    }
}

/// The views of a list of diagnostics, in order.
pub open spec fn diagnostics_view(errors: Seq<Diagnostic>) -> Seq<DiagnosticView> {
    errors.map_values(|d: Diagnostic| d@)
}

/// The decimal digit that stands for `d`.
pub open spec fn digit(d: nat) -> char {
    if d == 0 {
        '0'
    } else if d == 1 {
        '1'
    } else if d == 2 {
        '2'
    } else if d == 3 {
        '3'
    } else if d == 4 {
        '4'
    } else if d == 5 {
        '5'
    } else if d == 6 {
        '6'
    } else if d == 7 {
        '7'
    } else if d == 8 {
        '8'
    } else {
        '9'
    }
}

/// The number `n` in decimal, without leading zeros.
pub open spec fn decimal_text(n: nat) -> Seq<char>
    decreases n,
{
    if n < 10 {
        seq![digit(n)]
    } else {
        decimal_text(n / 10).push(digit(n % 10))
    }
}

fn digit_text(d: usize) -> (s: &'static str)
    requires
        d < 10,
    ensures
        s@ == seq![digit(d as nat)],
{
    proof {
        reveal_strlit("0");
        reveal_strlit("1");
        reveal_strlit("2");
        reveal_strlit("3");
        reveal_strlit("4");
        reveal_strlit("5");
        reveal_strlit("6");
        reveal_strlit("7");
        reveal_strlit("8");
        reveal_strlit("9");
    }
    let s = if d == 0 {
        "0"
    } else if d == 1 {
        "1"
    } else if d == 2 {
        "2"
    } else if d == 3 {
        "3"
    } else if d == 4 {
        "4"
    } else if d == 5 {
        "5"
    } else if d == 6 {
        "6"
    } else if d == 7 {
        "7"
    } else if d == 8 {
        "8"
    } else {
        "9"
    };
    assert(s@ =~= seq![digit(d as nat)]);
    s
}

/// Writes `n` in decimal.
pub fn decimal(n: usize) -> (s: String)
    ensures
        s@ == decimal_text(n as nat),
    decreases n,
{
    if n < 10 {
        digit_text(n).to_owned()
    } else {
        let s = decimal(n / 10).concat(digit_text(n % 10));
        assert(s@ =~= decimal_text(n as nat));
        s
    }
}

impl ParseErrTypeView {
    /// What the error says.
    pub open spec fn text(self) -> Seq<char> {
        match self {
            ParseErrTypeView::InvalidUnicode => "Invalid unicode"@,
            ParseErrTypeView::MissingArgument { expected, received } => "Expected "@
                + decimal_text(expected as nat) + " arguments, but found "@ + decimal_text(
                received as nat,
            ),
            ParseErrTypeView::UnknownVariable(name) => "Found unknown variable "@ + name,
            ParseErrTypeView::UnsupportedExpression(kind) => "Found unsupported expression "@
                + kind,
            ParseErrTypeView::MalformedTypeExpression(text) => "Found malformed type "@ + text,
        }
    }
}

impl ParseErrType {
    /// Writes the error out.
    pub fn to_string(&self) -> (s: String)
        ensures
            s@ == self@.text(),
    {
        match self {
            ParseErrType::InvalidUnicode => "Invalid unicode".to_owned(),
            ParseErrType::MissingArgument { expected, received } => {
                let e = decimal(*expected);
                let r = decimal(*received);
                "Expected ".to_owned().concat(e.as_str()).concat(" arguments, but found ").concat(
                    r.as_str(),
                )
            },
            ParseErrType::UnknownVariable(var_name) => "Found unknown variable ".to_owned().concat(
                var_name.as_str(),
            ),
            ParseErrType::UnsupportedExpression(kind) => {
                "Found unsupported expression ".to_owned().concat(kind.as_str())
            },
            ParseErrType::MalformedTypeExpression(text) => "Found malformed type ".to_owned().concat(
                text.as_str(),
            ),
        }
    }
}

/// What a label points out, which decides how it is set off.
#[derive(Debug, PartialEq, Eq, Clone, Copy)]
pub enum LabelRole {
    /// A type that was written down.
    Specified,
    /// A type that was inferred.
    Inferred,
    /// A node that could not be handled.
    Failure,
}

/// A remark on a span of the source. The message is `lead` followed by
/// `subject`; the subject is the part to set off.
#[derive(Debug)]
pub struct Label {
    pub range: Range<usize>,
    pub lead: String,
    pub subject: String,
    pub role: LabelRole,
}

/// [`Label`] with its texts as sequences of characters.
pub struct LabelView {
    pub range: Range<usize>,
    pub lead: Seq<char>,
    pub subject: Seq<char>,
    pub role: LabelRole,
}

impl View for Label {
    type V = LabelView;

    open spec fn view(&self) -> LabelView {
        LabelView { range: self.range, lead: self.lead@, subject: self.subject@, role: self.role }
    }
}

impl LabelView {
    /// The whole message of the label.
    pub open spec fn message(self) -> Seq<char> {
        self.lead + self.subject
    }
}

/// The label that a declaration gets in the report of a conflict: it names
/// the type and says whether it was inferred or declared; the second of two
/// declarations is the later one.
pub open spec fn declaration_label(decl: TypeDeclaration, is_later: bool) -> LabelView {
    LabelView {
        range: decl.range,
        lead: "Type "@ + (if is_later {
            "later "@
        } else {
            ""@
        }) + (match decl.method {
            Method::Inferred => "inferred"@,
            Method::Declared => "declared"@,
        }) + " to be "@,
        subject: decl.bash_type.name(),
        role: match decl.method {
            Method::Inferred => LabelRole::Inferred,
            Method::Declared => LabelRole::Specified,
        },
    }
}

/// Makes the label of a declaration for the report of a conflict.
pub fn label_from_type_declaration(decl_type: &TypeDeclaration, is_later: bool) -> (label: Label)
    ensures
        label@ == declaration_label(*decl_type, is_later),
{
    let (role, description) = match decl_type.method {
        Method::Inferred => (LabelRole::Inferred, "inferred"),
        Method::Declared => (LabelRole::Specified, "declared"),
    };
    let later = if is_later {
        "later "
    } else {
        ""
    };
    Label {
        range: Range { start: decl_type.range.start, end: decl_type.range.end },
        lead: "Type ".to_owned().concat(later).concat(description).concat(" to be "),
        subject: decl_type.bash_type.to_string(),
        role,
    }
}

impl DiagnosticView {
    /// The byte at which the report is shown.
    pub open spec fn offset(self) -> usize {
        match self {
            DiagnosticView::TypeMismatch { offset, .. } => offset,
            DiagnosticView::Redeclaration { offset, .. } => offset,
            DiagnosticView::Parse { offset, .. } => offset,
        }
    }

    /// The headline of the report.
    pub open spec fn message(self) -> Seq<char> {
        match self {
            DiagnosticView::TypeMismatch { .. } => "Types do not match"@,
            DiagnosticView::Redeclaration { name, .. } => "Variable "@ + name
                + " defined with different type"@,
            DiagnosticView::Parse { .. } => "Error while parsing comment"@,
        }
    }

    /// The labels of the report, in the order in which they are shown.
    pub open spec fn labels(self) -> Seq<LabelView> {
        match self {
            DiagnosticView::TypeMismatch {
                specified,
                specified_range,
                inferred,
                inferred_range,
                ..
            } => seq![
                LabelView {
                    range: specified_range,
                    lead: "Type specified as "@,
                    subject: specified.name(),
                    role: LabelRole::Specified,
                },
                LabelView {
                    range: inferred_range,
                    lead: "Type inferred to be "@,
                    subject: inferred.name(),
                    role: LabelRole::Inferred,
                },
            ],
            DiagnosticView::Redeclaration { previous, later, .. } => seq![
                declaration_label(previous, false),
                declaration_label(later, true),
            ],
            DiagnosticView::Parse { error, .. } => seq![
                LabelView {
                    range: Range { start: error.start, end: error.end },
                    lead: error.err_type.text(),
                    subject: ""@,
                    role: LabelRole::Failure,
                },
            ],
        }
    }
}

/// The views of a list of labels, in order.
pub open spec fn labels_view(labels: Seq<Label>) -> Seq<LabelView> {
    labels.map_values(|l: Label| l@)
}

impl Diagnostic {
    /// The byte at which the report is shown.
    pub fn offset(&self) -> (offset: usize)
        ensures
            offset == self@.offset(),
    {
        match self {
            Diagnostic::TypeMismatch { offset, .. } => *offset,
            Diagnostic::Redeclaration { offset, .. } => *offset,
            Diagnostic::Parse { offset, .. } => *offset,
        }
    }

    /// The headline of the report.
    pub fn message(&self) -> (message: String)
        ensures
            message@ == self@.message(),
    {
        match self {
            Diagnostic::TypeMismatch { .. } => "Types do not match".to_owned(),
            Diagnostic::Redeclaration { name, .. } => "Variable ".to_owned().concat(
                name.as_str(),
            ).concat(" defined with different type"),
            Diagnostic::Parse { .. } => "Error while parsing comment".to_owned(),
        }
    }

    /// The labels of the report, in the order in which they are shown.
    pub fn labels(&self) -> (labels: Vec<Label>)
        ensures
            labels_view(labels@) == self@.labels(),
    {
        let mut labels: Vec<Label> = Vec::new();
        match self {
            Diagnostic::TypeMismatch {
                specified,
                specified_range,
                inferred,
                inferred_range,
                ..
            } => {
                labels.push(
                    Label {
                        range: Range { start: specified_range.start, end: specified_range.end },
                        lead: "Type specified as ".to_owned(),
                        subject: specified.to_string(),
                        role: LabelRole::Specified,
                    },
                );
                labels.push(
                    Label {
                        range: Range { start: inferred_range.start, end: inferred_range.end },
                        lead: "Type inferred to be ".to_owned(),
                        subject: inferred.to_string(),
                        role: LabelRole::Inferred,
                    },
                );
            },
            Diagnostic::Redeclaration { previous, later, .. } => {
                labels.push(label_from_type_declaration(previous, false));
                labels.push(label_from_type_declaration(later, true));
            },
            Diagnostic::Parse { error, .. } => {
                labels.push(
                    Label {
                        range: Range { start: error.start, end: error.end },
                        lead: error.err_type.to_string(),
                        subject: "".to_owned(),
                        role: LabelRole::Failure,
                    },
                );
            },
        }
        assert(labels_view(labels@) =~= self@.labels());
        labels
    }
}

} // verus!
