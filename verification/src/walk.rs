//! What a scan does, said over the syntax tree: the state that it
//! collects, the inference of types, the handling of one node among its
//! siblings, and the walk that goes from node to node.

use crate::annotation::directive_of;
use crate::annotation::parse_type;
use crate::annotation::spec_read_comment;
use crate::annotation::Comment;
use crate::annotation::CommentView;
use crate::annotation::DirectiveView;
use crate::declaration::spec_combine_ranges;
use crate::declaration::Method;
use crate::declaration::TypeDeclaration;
use crate::diagnostic::DiagnosticView;
use crate::diagnostic::ParseErrTypeView;
use crate::diagnostic::ParseError;
use crate::diagnostic::ParseErrorView;
use crate::lattice::BashType;
use crate::syntax::slice_text;
use crate::syntax::NodeKind;
use crate::syntax::SyntaxNode;
use std::ops::Range;
use vstd::prelude::*;

verus! {

/// What a scan has collected so far.
pub struct ScanState {
    /// The first binding of every variable that was bound.
    pub variables: Map<Seq<char>, TypeDeclaration>,
    /// The diagnostics, in the order in which they arose.
    pub errors: Seq<DiagnosticView>,
    /// Whether conflicts are passed over for the statement at hand.
    pub force: bool,
}

impl ScanState {
    /// The state of a scan that has not begun.
    pub open spec fn initial() -> ScanState {
        ScanState { variables: Map::empty(), errors: Seq::empty(), force: false }
    }

    /// The same state with the force flag as given.
    pub open spec fn with_force(self, force: bool) -> ScanState {
        ScanState { force, ..self }
    }

    /// The same state with one more diagnostic.
    pub open spec fn report(self, diagnostic: DiagnosticView) -> ScanState {
        ScanState { errors: self.errors.push(diagnostic), ..self }
    }

    /// The state after `name` is bound to `decl` by a node whose reports
    /// are shown at `offset`.
    ///
    /// A name without a binding gets this one. A name that is bound keeps
    /// its binding: the new type is only held against it, and where it does
    /// not contain the bound type, and nothing forces the statement through,
    /// the conflict is reported.
    pub open spec fn bind(self, name: Seq<char>, decl: TypeDeclaration, offset: usize) -> ScanState {
        if self.variables.contains_key(name) {
            let previous = self.variables[name];
            if !decl.bash_type.spec_can_contain(previous.bash_type) && !self.force {
                self.report(DiagnosticView::Redeclaration { offset, name, previous, later: decl })
            } else {
                self
            }
        } else {
            ScanState { variables: self.variables.insert(name, decl), ..self }
        }
    }

    /// Whether `later` holds every binding and every diagnostic of `self`,
    /// unchanged and in the same order.
    pub open spec fn kept_by(self, later: ScanState) -> bool {
        &&& forall|name: Seq<char>| #[trigger]
            self.variables.contains_key(name) ==> later.variables.contains_key(name)
                && later.variables[name] == self.variables[name]
        &&& self.errors.len() <= later.errors.len()
        &&& forall|k: int|
            0 <= k < self.errors.len() ==> later.errors[k] == #[trigger] self.errors[k]
    }
}

/// The span of bytes of a node.
pub open spec fn span(node: SyntaxNode) -> Range<usize> {
    Range { start: node.start_byte, end: node.end_byte }
}

/// An error about `node`.
pub open spec fn error_at(err_type: ParseErrTypeView, node: SyntaxNode) -> ParseErrorView {
    ParseErrorView { err_type, start: node.start_byte, end: node.end_byte }
}

/// How many of `nodes[lo..]` are named.
pub open spec fn named_count(nodes: Seq<SyntaxNode>, lo: int) -> nat
    decreases nodes.len() - lo,
{
    if 0 <= lo < nodes.len() {
        named_count(nodes, lo + 1) + if nodes[lo].named {
            1nat
        } else {
            0nat
        }
    } else {
        0
    }
}

/// The index of the first named node of `nodes[lo..]`, or the length of
/// `nodes` when none of them is named.
pub open spec fn first_named(nodes: Seq<SyntaxNode>, lo: int) -> int
    decreases nodes.len() - lo,
{
    if 0 <= lo < nodes.len() && !nodes[lo].named {
        first_named(nodes, lo + 1)
    } else {
        lo
    }
}

/// The type of the value that `node` stands for.
///
/// A number is an integer and a bare word is a string. A quoted string is a
/// string, unless all that it holds is one expansion: then it has the type
/// of that expansion. An expansion has the type of the variable that its
/// second child names; the variable must be bound. No other kind of node
/// has a type.
pub open spec fn infer(
    source: Seq<char>,
    variables: Map<Seq<char>, TypeDeclaration>,
    node: SyntaxNode,
) -> Result<BashType, ParseErrorView>
    decreases node,
{
    match node.kind {
        NodeKind::Number => Ok(BashType::Integer),
        NodeKind::Word => Ok(BashType::String),
        NodeKind::String => {
            let content = first_named(node.children@, 0);
            if named_count(node.children@, 0) == 1 && 0 <= content < node.children@.len() && !(
            node.children@[content].kind is StringContent) {
                infer(source, variables, node.children@[content])
            } else {
                Ok(BashType::String)
            }
        },
        NodeKind::SimpleExpansion => {
            if node.children@.len() < 2 {
                Err(error_at(ParseErrTypeView::UnsupportedExpression(node.kind.tag_text()), node))
            } else {
                let variable = node.children@[1];
                match slice_text(source, variable.start_byte as int, variable.end_byte as int) {
                    None => Err(error_at(ParseErrTypeView::InvalidUnicode, variable)),
                    Some(name) => if variables.contains_key(name) {
                        Ok(variables[name].bash_type)
                    } else {
                        Err(error_at(ParseErrTypeView::UnknownVariable(name), variable))
                    },
                }
            }
        },
        _ => Err(error_at(ParseErrTypeView::UnsupportedExpression(node.kind.tag_text()), node)),
    }
}

/// Where the walk stands once a node has been handled, and the error that
/// stopped the handling, if one did.
pub struct Step {
    /// The index, among its siblings, of the node on which the walk stands,
    /// or of the node that holds it.
    pub at: usize,
    /// The index of the child of that node on which the walk stands, when
    /// it stands inside.
    pub inside: Option<usize>,
    pub error: Option<ParseError>,
}

/// [`Step`] with its error as a view.
pub struct StepView {
    pub at: int,
    pub inside: Option<int>,
    pub error: Option<ParseErrorView>,
}

impl View for Step {
    type V = StepView;

    open spec fn view(&self) -> StepView {
        StepView {
            at: self.at as int,
            inside: match self.inside {
                Some(k) => Some(k as int),
                None => None,
            },
            error: match self.error {
                Some(e) => Some(e@),
                None => None,
            },
        }
    }
}

impl StepView {
    /// The walk stands on sibling `at`, and nothing went wrong.
    pub open spec fn on(at: int) -> StepView {
        StepView { at, inside: None, error: None }
    }

    /// The node on which the walk stands.
    pub open spec fn stood(self, nodes: Seq<SyntaxNode>) -> SyntaxNode {
        match self.inside {
            Some(k) => nodes[self.at].children@[k],
            None => nodes[self.at],
        }
    }

    /// The walk stands on a node of `nodes[from..]` or on a child of one.
    pub open spec fn stands_in(self, nodes: Seq<SyntaxNode>, from: int) -> bool {
        &&& from <= self.at < nodes.len()
        &&& self.inside matches Some(k) ==> 0 <= k < nodes[self.at].children@.len()
    }
}

/// The view of a comment that may be there.
pub open spec fn comment_view(comment: Option<Comment>) -> Option<CommentView> {
    match comment {
        Some(c) => Some(c@),
        None => None,
    }
}

/// The view of an error that may be there.
pub open spec fn error_view(error: Option<ParseError>) -> Option<ParseErrorView> {
    match error {
        Some(e) => Some(e@),
        None => None,
    }
}

/// The comment, when it is an annotation.
pub open spec fn as_annotation(comment: Option<CommentView>) -> Option<CommentView> {
    match comment {
        Some(c) => if c.kind is Annotation {
            comment
        } else {
            None
        },
        None => None,
    }
}

/// The annotation of an assignment: the one that trails it, else the one
/// that was carried over from the line before.
pub open spec fn annotation_of(
    inline: Option<CommentView>,
    pending: Option<CommentView>,
) -> Option<CommentView> {
    if as_annotation(inline) is Some {
        as_annotation(inline)
    } else {
        as_annotation(pending)
    }
}

/// The state after the directive of `comment` is obeyed, and the error
/// that it gives rise to, if any. `stood` is the node on which the walk
/// stands by then: the span of a variable that the directive declares is
/// the span of that node.
pub open spec fn obey(comment: Option<CommentView>, stood: SyntaxNode, state: ScanState) -> (
    ScanState,
    Option<ParseErrorView>,
) {
    match comment {
        Some(c) => if c.kind is Directive {
            match directive_of(c.text) {
                DirectiveView::Force => (state.with_force(true), None),
                DirectiveView::SetVar { name, type_text } => match parse_type(type_text) {
                    Some(bash_type) => (
                        state.bind(
                            name,
                            TypeDeclaration {
                                range: span(stood),
                                bash_type,
                                method: Method::Declared,
                            },
                            stood.start_byte,
                        ),
                        None,
                    ),
                    None => (
                        state,
                        Some(
                            ParseErrorView {
                                err_type: ParseErrTypeView::MalformedTypeExpression(type_text),
                                start: c.range.start,
                                end: c.range.end,
                            },
                        ),
                    ),
                },
                DirectiveView::WrongArity { received } => (
                    state,
                    Some(
                        ParseErrorView {
                            err_type: ParseErrTypeView::MissingArgument { expected: 2, received },
                            start: c.range.start,
                            end: c.range.end,
                        },
                    ),
                ),
                DirectiveView::Unknown => (state, None),
            }
        } else {
            (state, None)
        },
        None => (state, None),
    }
}

/// The comment that follows `nodes[i]` among its siblings, as far as it
/// is one that a scan reads; an error when its bytes are not text.
pub open spec fn trailing_comment(source: Seq<char>, nodes: Seq<SyntaxNode>, i: int) -> Result<
    Option<CommentView>,
    ParseErrorView,
> {
    if i + 1 < nodes.len() && nodes[i + 1].kind is Comment {
        match slice_text(source, nodes[i + 1].start_byte as int, nodes[i + 1].end_byte as int) {
            None => Err(error_at(ParseErrTypeView::InvalidUnicode, nodes[i + 1])),
            Some(raw) => Ok(spec_read_comment(raw, span(nodes[i + 1]))),
        }
    } else {
        Ok(None)
    }
}

/// Where the walk stands once the comment after `nodes[i]` has been read:
/// on the comment, unless there is none or it is a directive, which is
/// left for the walk to obey.
pub open spec fn stand_after(nodes: Seq<SyntaxNode>, i: int, inline: Option<CommentView>) -> int {
    if i + 1 < nodes.len() && nodes[i + 1].kind is Comment && !(inline matches Some(c)
        && c.kind is Directive) {
        i + 1
    } else {
        i
    }
}

/// The handling of the assignment `nodes[i]`.
///
/// Its children are the name, the operator and the value. The type of the
/// value is inferred, and with it the span from the start of the name to the
/// end of the value. A comment that follows the assignment is read; if it
/// is an annotation, it is the annotation of this assignment, before the one
/// that was carried over. Where there is an annotation, the type that it
/// spells must contain the inferred type, unless the statement is forced:
/// then the variable is bound to the annotated type over both spans;
/// otherwise the mismatch is reported and nothing is bound. Without an
/// annotation the variable is bound to the inferred type.
///
/// What fails leaves the walk where it failed: on the name whose bytes are
/// not text, on the value that has no type, on the comment whose bytes are
/// not text. An assignment of fewer than three children has no value: what
/// stands last in it is reported as unsupported.
pub open spec fn assign(
    source: Seq<char>,
    nodes: Seq<SyntaxNode>,
    i: int,
    pending: Option<CommentView>,
    state: ScanState,
) -> (ScanState, StepView) {
    let parts = nodes[i].children@;
    let last = parts.len() - 1;
    if parts.len() == 0 {
        (
            state,
            StepView {
                at: i,
                inside: None,
                error: Some(
                    error_at(
                        ParseErrTypeView::UnsupportedExpression(nodes[i].kind.tag_text()),
                        nodes[i],
                    ),
                ),
            },
        )
    } else {
        match slice_text(source, parts[0].start_byte as int, parts[0].end_byte as int) {
            None => (
                state,
                StepView {
                    at: i,
                    inside: Some(0),
                    error: Some(error_at(ParseErrTypeView::InvalidUnicode, parts[0])),
                },
            ),
            Some(name) => if parts.len() < 3 {
                (
                    state,
                    StepView {
                        at: i,
                        inside: Some(last),
                        error: Some(
                            error_at(
                                ParseErrTypeView::UnsupportedExpression(
                                    parts[last].kind.tag_text(),
                                ),
                                parts[last],
                            ),
                        ),
                    },
                )
            } else {
                match infer(source, state.variables, parts[2]) {
                    Err(e) => (state, StepView { at: i, inside: Some(2), error: Some(e) }),
                    Ok(inferred) => match trailing_comment(source, nodes, i) {
                        Err(e) => (state, StepView { at: i + 1, inside: None, error: Some(e) }),
                        Ok(inline) => {
                            let at = stand_after(nodes, i, inline);
                            settle(
                                name,
                                inferred,
                                Range { start: parts[0].start_byte, end: parts[2].end_byte },
                                annotation_of(inline, pending),
                                nodes[at].start_byte,
                                at,
                                state,
                            )
                        },
                    },
                }
            },
        }
    }
}

/// The last part of the handling of an assignment: the inferred type is
/// held against the annotation, and the variable is bound.
pub open spec fn settle(
    name: Seq<char>,
    inferred: BashType,
    location: Range<usize>,
    annotation: Option<CommentView>,
    offset: usize,
    at: int,
    state: ScanState,
) -> (ScanState, StepView) {
    match annotation {
        None => (
            state.bind(
                name,
                TypeDeclaration { range: location, bash_type: inferred, method: Method::Inferred },
                offset,
            ),
            StepView::on(at),
        ),
        Some(comment) => match parse_type(comment.text) {
            None => (
                state,
                StepView {
                    at,
                    inside: None,
                    error: Some(
                        ParseErrorView {
                            err_type: ParseErrTypeView::MalformedTypeExpression(comment.text),
                            start: comment.range.start,
                            end: comment.range.end,
                        },
                    ),
                },
            ),
            Some(suggested) => if suggested.spec_can_contain(inferred) || state.force {
                (
                    state.bind(
                        name,
                        TypeDeclaration {
                            range: spec_combine_ranges(comment.range, location),
                            bash_type: suggested,
                            method: Method::Declared,
                        },
                        offset,
                    ),
                    StepView::on(at),
                )
            } else {
                (
                    state.report(
                        DiagnosticView::TypeMismatch {
                            offset,
                            specified: suggested,
                            specified_range: comment.range,
                            inferred,
                            inferred_range: location,
                        },
                    ),
                    StepView::on(at),
                )
            },
        },
    }
}

/// The handling of `nodes[i]`, a node among its siblings, with the
/// annotation that the comment before it left behind.
///
/// A comment is read and, if it is a directive, obeyed; the walk moves on to
/// the next sibling, which is handled at once, with the comment as its
/// annotation if it is one. An assignment is handled as [`assign`] says.
/// Any other node is passed over.
pub open spec fn handle(
    source: Seq<char>,
    nodes: Seq<SyntaxNode>,
    i: int,
    pending: Option<CommentView>,
    state: ScanState,
) -> (ScanState, StepView)
    decreases nodes.len() - i,
{
    if 0 <= i < nodes.len() {
        match nodes[i].kind {
            NodeKind::Comment => {
                let at = if i + 1 < nodes.len() {
                    i + 1
                } else {
                    i
                };
                match slice_text(source, nodes[i].start_byte as int, nodes[i].end_byte as int) {
                    None => (
                        state,
                        StepView {
                            at: i,
                            inside: None,
                            error: Some(error_at(ParseErrTypeView::InvalidUnicode, nodes[i])),
                        },
                    ),
                    Some(raw) => {
                        let comment = spec_read_comment(raw, span(nodes[i]));
                        let (after, error) = obey(comment, nodes[at], state);
                        if error is Some || i + 1 >= nodes.len() {
                            (after, StepView { at, inside: None, error })
                        } else {
                            handle(source, nodes, i + 1, as_annotation(comment), after)
                        }
                    },
                }
            },
            NodeKind::VariableAssignment => assign(source, nodes, i, pending, state),
            _ => (state, StepView::on(i)),
        }
    } else {
        (state, StepView::on(i))
    }
}

/// After a node is handled the walk stands on it, on a later sibling, or on
/// a child of one of them.
pub proof fn lemma_handle_stands(
    source: Seq<char>,
    nodes: Seq<SyntaxNode>,
    i: int,
    pending: Option<CommentView>,
    state: ScanState,
)
    requires
        0 <= i < nodes.len(),
    ensures
        handle(source, nodes, i, pending, state).1.stands_in(nodes, i),
    decreases nodes.len() - i,
{
    if nodes[i].kind is Comment && i + 1 < nodes.len() {
        match slice_text(source, nodes[i].start_byte as int, nodes[i].end_byte as int) {
            None => {},
            Some(raw) => {
                let comment = spec_read_comment(raw, span(nodes[i]));
                let (after, error) = obey(comment, nodes[i + 1], state);
                lemma_handle_stands(source, nodes, i + 1, as_annotation(comment), after);
            },
        }
    }
}

/// The state after the walk has gone through `nodes[i..]` and all that is
/// below them.
///
/// The walk handles a node, reports the error if the handling failed, and
/// goes on from where it then stands: down to the first child, else on to
/// the next sibling, else up. What stopped inside a node leaves the walk
/// there, so the rest of that node is still walked. The force flag falls
/// whenever the walk goes on to a next sibling.
pub open spec fn walk(source: Seq<char>, nodes: Seq<SyntaxNode>, i: int, state: ScanState) -> ScanState
    decreases nodes, nodes.len() - i,
{
    if 0 <= i < nodes.len() {
        let (handled, step) = handle(source, nodes, i, None, state);
        let reported = match step.error {
            Some(error) => handled.report(
                DiagnosticView::Parse { offset: step.stood(nodes).start_byte, error },
            ),
            None => handled,
        };
        let parts = nodes[step.at].children@;
        proof {
            lemma_handle_stands(source, nodes, i, None, state);
        }
        let below = match step.inside {
            None => walk(source, parts, 0, reported),
            Some(k) => {
                let inner = walk(source, parts[k].children@, 0, reported);
                if k + 1 < parts.len() {
                    walk(source, parts, k + 1, inner.with_force(false))
                } else {
                    inner
                }
            },
        };
        if step.at + 1 < nodes.len() {
            walk(source, nodes, step.at + 1, below.with_force(false))
        } else {
            below
        }
    } else {
        state
    }
}

/// The state after the tree under `root` is walked.
pub open spec fn scan(source: Seq<char>, root: SyntaxNode, state: ScanState) -> ScanState {
    walk(source, seq![root], 0, state)
}

} // verus!
