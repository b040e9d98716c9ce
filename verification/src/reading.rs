//! A scan reads of a tree only what its nodes hold: two trees that hold
//! the same, node for node, are scanned alike.

use crate::annotation::spec_read_comment;
use crate::annotation::CommentView;
use crate::declaration::TypeDeclaration;
use crate::grammar::NodeContent;
use crate::syntax::slice_text;
use crate::syntax::NodeKind;
use crate::syntax::SyntaxNode;
use crate::walk::as_annotation;
use crate::walk::assign;
use crate::walk::first_named;
use crate::walk::handle;
use crate::walk::infer;
use crate::walk::lemma_handle_stands;
use crate::walk::named_count;
use crate::walk::obey;
use crate::walk::scan;
use crate::walk::span;
use crate::walk::stand_after;
use crate::walk::trailing_comment;
use crate::walk::walk;
use crate::walk::ScanState;
use vstd::prelude::*;

verus! {

/// Whether the nodes of `row` hold, one by one, what `contents` hold.
pub open spec fn row_mirrors(row: Seq<SyntaxNode>, contents: Seq<NodeContent>) -> bool {
    &&& row.len() == contents.len()
    &&& forall|i: int| 0 <= i < contents.len() ==> (#[trigger] row[i]).mirrors(contents[i])
}

/// Whether two kinds are the same variant under the same name.
pub open spec fn same_kind(a: NodeKind, b: NodeKind) -> bool {
    &&& a.tag_text() == b.tag_text()
    &&& a is Comment <==> b is Comment
    &&& a is VariableAssignment <==> b is VariableAssignment
    &&& a is Number <==> b is Number
    &&& a is Word <==> b is Word
    &&& a is String <==> b is String
    &&& a is StringContent <==> b is StringContent
    &&& a is SimpleExpansion <==> b is SimpleExpansion
    &&& a is Other <==> b is Other
}

/// Two nodes that hold the same are of the same kind and span, and their
/// children hold the same.
pub proof fn lemma_mirrors_alike(a: SyntaxNode, b: SyntaxNode, content: NodeContent)
    requires
        a.mirrors(content),
        b.mirrors(content),
    ensures
        same_kind(a.kind, b.kind),
        a.named == b.named,
        a.start_byte == b.start_byte,
        a.end_byte == b.end_byte,
        row_mirrors(a.children@, content.children),
        row_mirrors(b.children@, content.children),
{
    reveal_strlit("comment");
    reveal_strlit("variable_assignment");
    reveal_strlit("number");
    reveal_strlit("word");
    reveal_strlit("string");
    reveal_strlit("string_content");
    reveal_strlit("simple_expansion");
    assert("comment"@.len() == 7);
    assert("variable_assignment"@.len() == 19);
    assert("number"@.len() == 6);
    assert("word"@.len() == 4);
    assert("string"@.len() == 6);
    assert("string_content"@.len() == 14);
    assert("simple_expansion"@.len() == 16);
    assert("number"@[0] != "string"@[0]);
}

/// The named nodes of two rows that hold the same are as many, and the
/// first of them stands at the same place.
pub proof fn lemma_named_alike(
    a: Seq<SyntaxNode>,
    b: Seq<SyntaxNode>,
    contents: Seq<NodeContent>,
    lo: int,
)
    requires
        row_mirrors(a, contents),
        row_mirrors(b, contents),
    ensures
        named_count(a, lo) == named_count(b, lo),
        first_named(a, lo) == first_named(b, lo),
    decreases contents.len() - lo,
{
    if 0 <= lo < contents.len() {
        lemma_mirrors_alike(a[lo], b[lo], contents[lo]);
        lemma_named_alike(a, b, contents, lo + 1);
    }
}

/// The same type is inferred for two nodes that hold the same.
pub proof fn lemma_infer_alike(
    source: Seq<char>,
    variables: Map<Seq<char>, TypeDeclaration>,
    a: SyntaxNode,
    b: SyntaxNode,
    content: NodeContent,
)
    requires
        a.mirrors(content),
        b.mirrors(content),
    ensures
        infer(source, variables, a) == infer(source, variables, b),
    decreases content,
{
    lemma_mirrors_alike(a, b, content);
    lemma_named_alike(a.children@, b.children@, content.children, 0);
    let at = first_named(a.children@, 0);
    if 0 <= at < content.children.len() {
        lemma_mirrors_alike(a.children@[at], b.children@[at], content.children[at]);
        lemma_infer_alike(
            source,
            variables,
            a.children@[at],
            b.children@[at],
            content.children[at],
        );
    }
    if content.children.len() >= 2 {
        lemma_mirrors_alike(a.children@[1], b.children@[1], content.children[1]);
    }
}

/// An assignment is handled alike in two rows that hold the same.
pub proof fn lemma_assign_alike(
    source: Seq<char>,
    a: Seq<SyntaxNode>,
    b: Seq<SyntaxNode>,
    contents: Seq<NodeContent>,
    i: int,
    pending: Option<CommentView>,
    state: ScanState,
)
    requires
        row_mirrors(a, contents),
        row_mirrors(b, contents),
        0 <= i < contents.len(),
    ensures
        assign(source, a, i, pending, state) == assign(source, b, i, pending, state),
{
    lemma_mirrors_alike(a[i], b[i], contents[i]);
    let parts = contents[i].children;
    if parts.len() > 0 {
        lemma_mirrors_alike(a[i].children@[0], b[i].children@[0], parts[0]);
        let last = parts.len() - 1;
        lemma_mirrors_alike(a[i].children@[last], b[i].children@[last], parts[last]);
    }
    if parts.len() >= 3 {
        lemma_mirrors_alike(a[i].children@[2], b[i].children@[2], parts[2]);
        lemma_infer_alike(source, state.variables, a[i].children@[2], b[i].children@[2], parts[2]);
    }
    if i + 1 < contents.len() {
        lemma_mirrors_alike(a[i + 1], b[i + 1], contents[i + 1]);
    }
    assert(trailing_comment(source, a, i) == trailing_comment(source, b, i));
    match trailing_comment(source, a, i) {
        Ok(inline) => {
            assert(stand_after(a, i, inline) == stand_after(b, i, inline));
        },
        Err(_) => {},
    }
}

/// A node is handled alike in two rows that hold the same.
pub proof fn lemma_handle_alike(
    source: Seq<char>,
    a: Seq<SyntaxNode>,
    b: Seq<SyntaxNode>,
    contents: Seq<NodeContent>,
    i: int,
    pending: Option<CommentView>,
    state: ScanState,
)
    requires
        row_mirrors(a, contents),
        row_mirrors(b, contents),
    ensures
        handle(source, a, i, pending, state) == handle(source, b, i, pending, state),
    decreases contents.len() - i,
{
    if 0 <= i < contents.len() {
        lemma_mirrors_alike(a[i], b[i], contents[i]);
        if a[i].kind is Comment {
            let at = if i + 1 < contents.len() {
                i + 1
            } else {
                i
            };
            lemma_mirrors_alike(a[at], b[at], contents[at]);
            match slice_text(source, a[i].start_byte as int, a[i].end_byte as int) {
                None => {},
                Some(raw) => {
                    let comment = spec_read_comment(raw, span(a[i]));
                    let (after, error) = obey(comment, a[at], state);
                    assert(obey(comment, b[at], state) == (after, error));
                    if !(error is Some || i + 1 >= contents.len()) {
                        lemma_handle_alike(
                            source,
                            a,
                            b,
                            contents,
                            i + 1,
                            as_annotation(comment),
                            after,
                        );
                    }
                },
            }
        } else if a[i].kind is VariableAssignment {
            lemma_assign_alike(source, a, b, contents, i, pending, state);
        }
    }
}

/// Two rows that hold the same are walked alike.
pub proof fn lemma_walk_alike(
    source: Seq<char>,
    a: Seq<SyntaxNode>,
    b: Seq<SyntaxNode>,
    contents: Seq<NodeContent>,
    i: int,
    state: ScanState,
)
    requires
        row_mirrors(a, contents),
        row_mirrors(b, contents),
    ensures
        walk(source, a, i, state) == walk(source, b, i, state),
    decreases contents, contents.len() - i,
{
    if 0 <= i < contents.len() {
        let (handled, step) = handle(source, a, i, None, state);
        lemma_handle_alike(source, a, b, contents, i, None, state);
        lemma_handle_stands(source, a, i, None, state);
        lemma_mirrors_alike(a[step.at], b[step.at], contents[step.at]);
        let parts = contents[step.at].children;
        let parts_a = a[step.at].children@;
        let parts_b = b[step.at].children@;
        let reported = match step.error {
            Some(error) => handled.report(
                crate::diagnostic::DiagnosticView::Parse {
                    offset: step.stood(a).start_byte,
                    error,
                },
            ),
            None => handled,
        };
        let below = match step.inside {
            None => {
                lemma_walk_alike(source, parts_a, parts_b, parts, 0, reported);
                walk(source, parts_a, 0, reported)
            },
            Some(k) => {
                lemma_mirrors_alike(parts_a[k], parts_b[k], parts[k]);
                lemma_walk_alike(
                    source,
                    parts_a[k].children@,
                    parts_b[k].children@,
                    parts[k].children,
                    0,
                    reported,
                );
                let inner = walk(source, parts_a[k].children@, 0, reported);
                if k + 1 < parts.len() {
                    lemma_walk_alike(source, parts_a, parts_b, parts, k + 1, inner.with_force(false));
                    walk(source, parts_a, k + 1, inner.with_force(false))
                } else {
                    inner
                }
            },
        };
        if step.at + 1 < contents.len() {
            lemma_walk_alike(source, a, b, contents, step.at + 1, below.with_force(false));
        }
    }
}

/// Two trees that hold the same are scanned alike: a scan depends on the
/// source and on what the nodes of the tree hold, and on nothing else.
pub proof fn lemma_scan_alike(
    source: Seq<char>,
    a: SyntaxNode,
    b: SyntaxNode,
    content: NodeContent,
    state: ScanState,
)
    requires
        a.mirrors(content),
        b.mirrors(content),
    ensures
        scan(source, a, state) == scan(source, b, state),
{
    lemma_walk_alike(source, seq![a], seq![b], seq![content], 0, state);
}

} // verus!
