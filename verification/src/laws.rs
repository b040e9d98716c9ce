//! What holds of every scan: nothing that was bound or reported is ever
//! taken back, and a declaration that is compatible or forced leaves no
//! trace.

use crate::annotation::parse_type;
use crate::annotation::spec_read_comment;
use crate::annotation::CommentView;
use crate::declaration::TypeDeclaration;
use crate::diagnostic::DiagnosticView;
use crate::lattice::BashType;
use crate::syntax::slice_text;
use crate::syntax::SyntaxNode;
use crate::walk::annotation_of;
use crate::walk::as_annotation;
use crate::walk::assign;
use crate::walk::handle;
use crate::walk::infer;
use crate::walk::lemma_handle_stands;
use crate::walk::obey;
use crate::walk::scan;
use crate::walk::settle;
use crate::walk::span;
use crate::walk::stand_after;
use crate::walk::trailing_comment;
use crate::walk::walk;
use crate::walk::ScanState;
use std::ops::Range;
use vstd::prelude::*;

verus! {

/// Binding a variable takes nothing back.
pub proof fn lemma_bind_keeps(state: ScanState, name: Seq<char>, decl: TypeDeclaration, offset: usize)
    ensures
        state.kept_by(state.bind(name, decl, offset)),
{
}

/// Obeying a directive takes nothing back.
pub proof fn lemma_obey_keeps(comment: Option<CommentView>, stood: SyntaxNode, state: ScanState)
    ensures
        state.kept_by(obey(comment, stood, state).0),
{
}

/// Settling an assignment takes nothing back.
pub proof fn lemma_settle_keeps(
    name: Seq<char>,
    inferred: BashType,
    location: Range<usize>,
    annotation: Option<CommentView>,
    offset: usize,
    at: int,
    state: ScanState,
)
    ensures
        state.kept_by(settle(name, inferred, location, annotation, offset, at, state).0),
{
}

/// The handling of an assignment takes nothing back.
pub proof fn lemma_assign_keeps(
    source: Seq<char>,
    nodes: Seq<SyntaxNode>,
    i: int,
    pending: Option<CommentView>,
    state: ScanState,
)
    ensures
        state.kept_by(assign(source, nodes, i, pending, state).0),
{
    let parts = nodes[i].children@;
    if parts.len() >= 3 {
        if let Some(name) = slice_text(
            source,
            parts[0].start_byte as int,
            parts[0].end_byte as int,
        ) {
            if let Ok(inferred) = infer(source, state.variables, parts[2]) {
                if let Ok(inline) = trailing_comment(source, nodes, i) {
                    let at = stand_after(nodes, i, inline);
                    lemma_settle_keeps(
                        name,
                        inferred,
                        Range { start: parts[0].start_byte, end: parts[2].end_byte },
                        annotation_of(inline, pending),
                        nodes[at].start_byte,
                        at,
                        state,
                    );
                }
            }
        }
    }
}

/// The handling of a node takes nothing back: what was bound stays bound
/// to the same declaration, and what was reported stays reported.
pub proof fn lemma_handle_keeps(
    source: Seq<char>,
    nodes: Seq<SyntaxNode>,
    i: int,
    pending: Option<CommentView>,
    state: ScanState,
)
    ensures
        state.kept_by(handle(source, nodes, i, pending, state).0),
    decreases nodes.len() - i,
{
    if 0 <= i < nodes.len() {
        if nodes[i].kind is Comment {
            match slice_text(source, nodes[i].start_byte as int, nodes[i].end_byte as int) {
                None => {},
                Some(raw) => {
                    let at = if i + 1 < nodes.len() {
                        i + 1
                    } else {
                        i
                    };
                    let comment = spec_read_comment(raw, span(nodes[i]));
                    let (after, error) = obey(comment, nodes[at], state);
                    lemma_obey_keeps(comment, nodes[at], state);
                    if !(error is Some || i + 1 >= nodes.len()) {
                        lemma_handle_keeps(source, nodes, i + 1, as_annotation(comment), after);
                    }
                },
            }
        } else if nodes[i].kind is VariableAssignment {
            lemma_assign_keeps(source, nodes, i, pending, state);
        }
    }
}

/// What is kept by one step and then by the next is kept by both.
pub proof fn lemma_kept_chain(first: ScanState, second: ScanState, third: ScanState)
    requires
        first.kept_by(second),
        second.kept_by(third),
    ensures
        first.kept_by(third),
{
    assert forall|name: Seq<char>| #[trigger]
        first.variables.contains_key(name) implies third.variables.contains_key(name)
        && third.variables[name] == first.variables[name] by {
        assert(second.variables.contains_key(name));
    }
    assert forall|k: int| 0 <= k < first.errors.len() implies third.errors[k]
        == #[trigger] first.errors[k] by {
        assert(second.errors[k] == first.errors[k]);
    }
}

/// A walk takes nothing back. In particular the first binding of a
/// variable is the one that the scan ends with: a later declaration of the
/// same name, compatible or not, is never stored.
pub proof fn lemma_walk_keeps(source: Seq<char>, nodes: Seq<SyntaxNode>, i: int, state: ScanState)
    ensures
        state.kept_by(walk(source, nodes, i, state)),
    decreases nodes, nodes.len() - i,
{
    if 0 <= i < nodes.len() {
        let (handled, step) = handle(source, nodes, i, None, state);
        lemma_handle_keeps(source, nodes, i, None, state);
        lemma_handle_stands(source, nodes, i, None, state);
        {
            let reported = match step.error {
                Some(error) => handled.report(
                    DiagnosticView::Parse { offset: step.stood(nodes).start_byte, error },
                ),
                None => handled,
            };
            assert(handled.kept_by(reported));
            lemma_kept_chain(state, handled, reported);
            let parts = nodes[step.at].children@;
            let below = match step.inside {
                None => walk(source, parts, 0, reported),
                Some(k) => {
                    let inner = walk(source, parts[k].children@, 0, reported);
                    if k + 1 < parts.len() {
                        walk(source, parts, k + 1, inner.with_force(false))
                    } else {
                        inner
                    }
                },
            };
            match step.inside {
                None => {
                    lemma_walk_keeps(source, parts, 0, reported);
                },
                Some(k) => {
                    let inner = walk(source, parts[k].children@, 0, reported);
                    lemma_walk_keeps(source, parts[k].children@, 0, reported);
                    if k + 1 < parts.len() {
                        assert(inner.kept_by(inner.with_force(false)));
                        lemma_kept_chain(reported, inner, inner.with_force(false));
                        lemma_walk_keeps(source, parts, k + 1, inner.with_force(false));
                        lemma_kept_chain(reported, inner.with_force(false), below);
                    }
                },
            }
            lemma_kept_chain(state, reported, below);
            if step.at + 1 < nodes.len() {
                assert(below.kept_by(below.with_force(false)));
                lemma_kept_chain(state, below, below.with_force(false));
                lemma_walk_keeps(source, nodes, step.at + 1, below.with_force(false));
                lemma_kept_chain(
                    state,
                    below.with_force(false),
                    walk(source, nodes, step.at + 1, below.with_force(false)),
                );
            }
        }
    }
}

/// A scan takes nothing back.
pub proof fn lemma_scan_keeps(source: Seq<char>, root: SyntaxNode, state: ScanState)
    ensures
        state.kept_by(scan(source, root, state)),
{
    lemma_walk_keeps(source, seq![root], 0, state);
}

/// A declaration that widens the bound type, or one that is forced, changes
/// nothing: it is neither stored nor reported.
pub proof fn lemma_bind_accepts_widening(
    state: ScanState,
    name: Seq<char>,
    decl: TypeDeclaration,
    offset: usize,
)
    requires
        state.variables.contains_key(name),
        decl.bash_type.spec_can_contain(state.variables[name].bash_type) || state.force,
    ensures
        state.bind(name, decl, offset) == state,
{
}

/// A declaration that does not contain the bound type is reported, once,
/// unless it is forced; the binding stays as it was.
pub proof fn lemma_bind_reports_conflict(
    state: ScanState,
    name: Seq<char>,
    decl: TypeDeclaration,
    offset: usize,
)
    requires
        state.variables.contains_key(name),
        !decl.bash_type.spec_can_contain(state.variables[name].bash_type),
        !state.force,
    ensures
        state.bind(name, decl, offset).variables == state.variables,
        state.bind(name, decl, offset).errors == state.errors.push(
            DiagnosticView::Redeclaration {
                offset,
                name,
                previous: state.variables[name],
                later: decl,
            },
        ),
{
}

/// A forced statement is never reported: neither for an annotation that
/// does not contain what was inferred, nor for a binding that it conflicts
/// with.
pub proof fn lemma_forced_assignment_reports_nothing(
    name: Seq<char>,
    inferred: BashType,
    location: Range<usize>,
    annotation: Option<CommentView>,
    offset: usize,
    at: int,
    state: ScanState,
)
    requires
        state.force,
    ensures
        settle(name, inferred, location, annotation, offset, at, state).0.errors == state.errors,
{
}

/// An annotation that does not contain the inferred type is reported, and
/// the assignment binds nothing, unless the statement is forced.
pub proof fn lemma_mismatch_binds_nothing(
    name: Seq<char>,
    inferred: BashType,
    location: Range<usize>,
    comment: CommentView,
    offset: usize,
    at: int,
    state: ScanState,
)
    requires
        !state.force,
        parse_type(comment.text) matches Some(suggested) && !suggested.spec_can_contain(inferred),
    ensures
        settle(name, inferred, location, Some(comment), offset, at, state).0.variables
            == state.variables,
        settle(name, inferred, location, Some(comment), offset, at, state).0.errors
            == state.errors.push(
            DiagnosticView::TypeMismatch {
                offset,
                specified: parse_type(comment.text)->0,
                specified_range: comment.range,
                inferred,
                inferred_range: location,
            },
        ),
{
}

} // verus!
