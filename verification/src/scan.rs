//! The scan of one script: its source, the bindings and the diagnostics
//! that it collects.

use crate::annotation::parse_directive;
use crate::annotation::read_comment;
use crate::annotation::spec_read_comment;
use crate::annotation::type_from_string;
use crate::annotation::Comment;
use crate::annotation::CommentKind;
use crate::annotation::Directive;
use crate::declaration::combine_ranges;
use crate::declaration::Method;
use crate::declaration::TypeDeclaration;
use crate::diagnostic::diagnostics_view;
use crate::diagnostic::Diagnostic;
use crate::diagnostic::ParseErrType;
use crate::diagnostic::ParseErrTypeView;
use crate::diagnostic::ParseError;
use crate::grammar::bash_tree;
use crate::grammar::parse_script;
use crate::lattice::BashType;
use crate::reading::lemma_scan_alike;
use crate::syntax::slice_text;
use crate::syntax::source_text;
use crate::syntax::NodeKind;
use crate::syntax::SyntaxNode;
use crate::walk::as_annotation;
use crate::walk::assign;
use crate::walk::comment_view;
use crate::walk::error_at;
use crate::walk::error_view;
use crate::walk::first_named;
use crate::walk::handle;
use crate::walk::infer;
use crate::walk::lemma_handle_stands;
use crate::walk::named_count;
use crate::walk::obey;
use crate::walk::scan;
use crate::walk::settle;
use crate::walk::span;
use crate::walk::walk;
use crate::walk::ScanState;
use crate::walk::Step;
use std::ops::Range;
use vstd::hash_map::StringHashMap;
use vstd::prelude::*;

verus! {

/// One scan of one script: its source, and what the scan has collected.
pub struct FileInfo<'src> {
    pub source_code: &'src str,
    pub variables: StringHashMap<TypeDeclaration>,
    pub errors: Vec<Diagnostic>,
    /// Set by the `force` directive for the statement that follows it.
    pub force: bool,
}

impl<'src> View for FileInfo<'src> {
    type V = ScanState;

    open spec fn view(&self) -> ScanState {
        ScanState {
            variables: self.variables@,
            errors: diagnostics_view(self.errors@),
            force: self.force,
        }
    }
}

impl<'src> FileInfo<'src> {
    /// A scan of `source_code` that has not begun.
    pub fn new(source_code: &'src str) -> (file: FileInfo<'src>)
        ensures
            file@ == ScanState::initial(),
            file.source_code == source_code,
    {
        let file = FileInfo {
            source_code,
            variables: StringHashMap::new(),
            errors: Vec::new(),
            force: false,
        };
        assert(diagnostics_view(file.errors@) =~= Seq::empty());
        file
    }

    /// Appends one diagnostic.
    fn report(&mut self, diagnostic: Diagnostic)
        ensures
            final(self)@ == old(self)@.report(diagnostic@),
            final(self).source_code == old(self).source_code,
    {
        self.errors.push(diagnostic);
        assert(diagnostics_view(self.errors@) =~= diagnostics_view(old(self).errors@).push(
            diagnostic@,
        ));
    }

    /// Binds `name` to `final_type`, or holds `final_type` against the
    /// binding that `name` has. Reports are shown at `offset`.
    pub fn set_variable(&mut self, name: &str, final_type: TypeDeclaration, offset: usize)
        ensures
            final(self)@ == old(self)@.bind(name@, final_type, offset),
            final(self).source_code == old(self).source_code,
    {
        match self.variables.get(name) {
            Some(previous_type) => {
                if !final_type.bash_type.can_contain(&previous_type.bash_type) && !self.force {
                    let previous = previous_type.clone();
                    self.report(
                        Diagnostic::Redeclaration {
                            offset,
                            name: name.to_owned(),
                            previous,
                            later: final_type,
                        },
                    );
                }
            },
            None => {
                self.variables.insert(name.to_owned(), final_type);
            },
        }
    }

    /// Reads the comment node `node`: its text is cut out of the source and
    /// taken apart. A comment of neither form gives nothing.
    pub fn handle_comment(&self, node: &SyntaxNode) -> (r: Result<Option<Comment>, ParseError>)
        ensures
            match slice_text(self.source_code@, node.start_byte as int, node.end_byte as int) {
                None => r matches Err(e) && e@ == error_at(ParseErrTypeView::InvalidUnicode, *node),
                Some(raw) => r matches Ok(c) && comment_view(c) == spec_read_comment(
                    raw,
                    span(*node),
                ),
            },
    {
        match source_text(self.source_code, node.start_byte, node.end_byte) {
            None => Err(
                ParseError {
                    err_type: ParseErrType::InvalidUnicode,
                    start: node.start_byte,
                    end: node.end_byte,
                },
            ),
            Some(raw) => Ok(
                read_comment(raw, Range { start: node.start_byte, end: node.end_byte }),
            ),
        }
    }

    /// Infers the type of the value that `node` stands for.
    pub fn infer_type(&self, node: &SyntaxNode) -> (r: Result<BashType, ParseError>)
        ensures
            match infer(self.source_code@, self.variables@, *node) {
                Ok(t) => r == Ok::<BashType, ParseError>(t),
                Err(e) => r matches Err(x) && x@ == e,
            },
        decreases node,
    {
        match &node.kind {
            NodeKind::Number => Ok(BashType::Integer),
            NodeKind::Word => Ok(BashType::String),
            NodeKind::String => {
                let (count, content) = named_children(&node.children);
                if count == 1 && content < node.children.len() && !matches!(
                    node.children[content].kind,
                    NodeKind::StringContent
                ) {
                    self.infer_type(&node.children[content])
                } else {
                    Ok(BashType::String)
                }
            },
            NodeKind::SimpleExpansion => {
                if node.children.len() < 2 {
                    return Err(unsupported(node));
                }
                let variable = &node.children[1];
                match source_text(self.source_code, variable.start_byte, variable.end_byte) {
                    None => Err(
                        ParseError {
                            err_type: ParseErrType::InvalidUnicode,
                            start: variable.start_byte,
                            end: variable.end_byte,
                        },
                    ),
                    Some(var_name) => match self.variables.get(var_name) {
                        Some(decl) => Ok(decl.bash_type.clone()),
                        None => Err(
                            ParseError {
                                err_type: ParseErrType::UnknownVariable(var_name.to_owned()),
                                start: variable.start_byte,
                                end: variable.end_byte,
                            },
                        ),
                    },
                }
            },
            _ => Err(unsupported(node)),
        }
    }

    /// Obeys the directive of `comment`, if it is one. `stood` is the node
    /// on which the walk stands.
    fn obey(&mut self, comment: &Option<Comment>, stood: &SyntaxNode) -> (error: Option<ParseError>)
        ensures
            final(self)@ == obey(comment_view(*comment), *stood, old(self)@).0,
            error_view(error) == obey(comment_view(*comment), *stood, old(self)@).1,
            final(self).source_code == old(self).source_code,
    {
        let c = match comment {
            Some(c) => c,
            None => return None,
        };
        if !matches!(c.kind, CommentKind::Directive) {
            return None;
        }
        match parse_directive(c.text.as_str()) {
            Directive::Force => {
                self.force = true;
                None
            },
            Directive::SetVar { name, type_text } => match type_from_string(type_text.as_str()) {
                Ok(bash_type) => {
                    let final_type = TypeDeclaration {
                        range: Range { start: stood.start_byte, end: stood.end_byte },
                        bash_type,
                        method: Method::Declared,
                    };
                    self.set_variable(name.as_str(), final_type, stood.start_byte);
                    None
                },
                Err(err_type) => Some(
                    ParseError { err_type, start: c.range.start, end: c.range.end },
                ),
            },
            Directive::WrongArity { received } => Some(
                ParseError {
                    err_type: ParseErrType::MissingArgument { expected: 2, received },
                    start: c.range.start,
                    end: c.range.end,
                },
            ),
            Directive::Unknown => None,
        }
    }

    /// Holds the inferred type against the annotation and binds the
    /// variable.
    fn settle(
        &mut self,
        name: &str,
        inferred: BashType,
        location: Range<usize>,
        annotation: Option<Comment>,
        offset: usize,
        at: usize,
    ) -> (step: Step)
        ensures
            final(self)@ == settle(
                name@,
                inferred,
                location,
                comment_view(annotation),
                offset,
                at as int,
                old(self)@,
            ).0,
            step@ == settle(
                name@,
                inferred,
                location,
                comment_view(annotation),
                offset,
                at as int,
                old(self)@,
            ).1,
            final(self).source_code == old(self).source_code,
    {
        let comment = match annotation {
            Some(comment) => comment,
            None => {
                let final_type = TypeDeclaration {
                    range: location,
                    bash_type: inferred,
                    method: Method::Inferred,
                };
                self.set_variable(name, final_type, offset);
                return Step { at, inside: None, error: None };
            },
        };
        let suggested = match type_from_string(comment.text.as_str()) {
            Ok(suggested) => suggested,
            Err(err_type) => {
                return Step {
                    at,
                    inside: None,
                    error: Some(
                        ParseError { err_type, start: comment.range.start, end: comment.range.end },
                    ),
                };
            },
        };
        if suggested.can_contain(&inferred) || self.force {
            let final_type = TypeDeclaration {
                range: combine_ranges(comment.range, location),
                bash_type: suggested,
                method: Method::Declared,
            };
            self.set_variable(name, final_type, offset);
        } else {
            self.report(
                Diagnostic::TypeMismatch {
                    offset,
                    specified: suggested,
                    specified_range: comment.range,
                    inferred,
                    inferred_range: location,
                },
            );
        }
        Step { at, inside: None, error: None }
    }

    /// Handles the assignment `nodes[i]`.
    fn assign(&mut self, nodes: &Vec<SyntaxNode>, i: usize, pending: Option<Comment>) -> (step:
        Step)
        requires
            i < nodes.len(),
        ensures
            final(self)@ == assign(
                old(self).source_code@,
                nodes@,
                i as int,
                comment_view(pending),
                old(self)@,
            ).0,
            step@ == assign(
                old(self).source_code@,
                nodes@,
                i as int,
                comment_view(pending),
                old(self)@,
            ).1,
            final(self).source_code == old(self).source_code,
    {
        let parts = &nodes[i].children;
        if parts.len() == 0 {
            return Step { at: i, inside: None, error: Some(unsupported(&nodes[i])) };
        }
        let name = match source_text(self.source_code, parts[0].start_byte, parts[0].end_byte) {
            Some(name) => name,
            None => {
                return Step {
                    at: i,
                    inside: Some(0),
                    error: Some(
                        ParseError {
                            err_type: ParseErrType::InvalidUnicode,
                            start: parts[0].start_byte,
                            end: parts[0].end_byte,
                        },
                    ),
                };
            },
        };
        if parts.len() < 3 {
            let last = parts.len() - 1;
            return Step { at: i, inside: Some(last), error: Some(unsupported(&parts[last])) };
        }
        let inferred = match self.infer_type(&parts[2]) {
            Ok(inferred) => inferred,
            Err(e) => {
                return Step { at: i, inside: Some(2), error: Some(e) };
            },
        };
        let location = Range { start: parts[0].start_byte, end: parts[2].end_byte };
        let follows = i + 1 < nodes.len() && matches!(nodes[i + 1].kind, NodeKind::Comment);
        let inline = if follows {
            match self.handle_comment(&nodes[i + 1]) {
                Ok(inline) => inline,
                Err(e) => {
                    return Step { at: i + 1, inside: None, error: Some(e) };
                },
            }
        } else {
            None
        };
        let (at, annotation) = match inline {
            Some(c) => match c.kind {
                CommentKind::Annotation => (i + 1, Some(c)),
                CommentKind::Directive => (i, annotation_only(pending)),
            },
            None => (
                if follows {
                    i + 1
                } else {
                    i
                },
                annotation_only(pending),
            ),
        };
        self.settle(name, inferred, location, annotation, nodes[at].start_byte, at)
    }

    /// Handles `nodes[i]`, a node among its siblings. `possible_comment` is
    /// the annotation that the comment before the node left behind.
    pub fn handle_node(
        &mut self,
        nodes: &Vec<SyntaxNode>,
        i: usize,
        possible_comment: Option<Comment>,
    ) -> (step: Step)
        ensures
            final(self)@ == handle(
                old(self).source_code@,
                nodes@,
                i as int,
                comment_view(possible_comment),
                old(self)@,
            ).0,
            step@ == handle(
                old(self).source_code@,
                nodes@,
                i as int,
                comment_view(possible_comment),
                old(self)@,
            ).1,
            final(self).source_code == old(self).source_code,
        decreases nodes.len() - i,
    {
        if i >= nodes.len() {
            return Step { at: i, inside: None, error: None };
        }
        match &nodes[i].kind {
            NodeKind::Comment => {
                let comment = match self.handle_comment(&nodes[i]) {
                    Ok(comment) => comment,
                    Err(e) => {
                        return Step { at: i, inside: None, error: Some(e) };
                    },
                };
                let at = if i + 1 < nodes.len() {
                    i + 1
                } else {
                    i
                };
                let error = self.obey(&comment, &nodes[at]);
                if error.is_some() || i + 1 >= nodes.len() {
                    return Step { at, inside: None, error };
                }
                self.handle_node(nodes, i + 1, annotation_only(comment))
            },
            NodeKind::VariableAssignment => self.assign(nodes, i, possible_comment),
            _ => Step { at: i, inside: None, error: None },
        }
    }

    /// Walks `nodes[start..]` and all that is below them.
    fn walk(&mut self, nodes: &Vec<SyntaxNode>, start: usize)
        ensures
            final(self)@ == walk(old(self).source_code@, nodes@, start as int, old(self)@),
            final(self).source_code == old(self).source_code,
        decreases nodes@, nodes.len() - start,
    {
        let mut i: usize = start;
        while i < nodes.len()
            invariant
                self.source_code == old(self).source_code,
                walk(old(self).source_code@, nodes@, start as int, old(self)@) == walk(
                    self.source_code@,
                    nodes@,
                    i as int,
                    self@,
                ),
            decreases nodes.len() - i,
        {
            proof {
                lemma_handle_stands(self.source_code@, nodes@, i as int, None, self@);
            }
            let step = self.handle_node(nodes, i, None);
            assert(step@.stands_in(nodes@, i as int));
            let Step { at, inside, error } = step;
            let parts = &nodes[at].children;
            assert(inside matches Some(k) ==> k < parts.len());
            if let Some(error) = error {
                let offset = match inside {
                    Some(k) => parts[k].start_byte,
                    None => nodes[at].start_byte,
                };
                self.report(Diagnostic::Parse { offset, error });
            }
            match inside {
                None => self.walk(parts, 0),
                Some(k) => {
                    self.walk(&parts[k].children, 0);
                    if k + 1 < parts.len() {
                        self.force = false;
                        self.walk(parts, k + 1);
                    }
                },
            }
            if at + 1 < nodes.len() {
                self.force = false;
            }
            i = at + 1;
        }
    }

    /// Walks the tree under `root` and collects its bindings and
    /// diagnostics.
    pub fn scan_tree(&mut self, root: SyntaxNode)
        ensures
            final(self)@ == scan(old(self).source_code@, root, old(self)@),
            final(self).source_code == old(self).source_code,
    {
        let mut nodes: Vec<SyntaxNode> = Vec::new();
        nodes.push(root);
        assert(nodes@ =~= seq![root]);
        self.walk(&nodes, 0);
    }

    /// Parses the source as a Bash script and scans the tree. Gives `false`,
    /// and leaves everything as it was, when the parser makes no tree of the
    /// source. Otherwise the scan is that of a tree which holds, node for
    /// node, what the parser's tree holds; all such trees are scanned alike.
    pub fn parse_code(&mut self) -> (parsed: bool)
        ensures
            final(self).source_code == old(self).source_code,
            parsed == bash_tree(old(self).source_code@) is Some,
            match bash_tree(old(self).source_code@) {
                Some(content) => {
                    &&& exists|root: SyntaxNode| #[trigger] root.mirrors(content)
                    &&& forall|root: SyntaxNode| #[trigger]
                        root.mirrors(content) ==> final(self)@ == scan(
                            old(self).source_code@,
                            root,
                            old(self)@,
                        )
                },
                None => final(self)@ == old(self)@,
            },
    {
        match parse_script(self.source_code) {
            Some(root) => {
                let ghost read = root;
                self.scan_tree(root);
                proof {
                    let content = bash_tree(self.source_code@)->0;
                    assert(read.mirrors(content));
                    assert forall|other: SyntaxNode| #[trigger]
                        other.mirrors(content) implies self@ == scan(
                        self.source_code@,
                        other,
                        old(self)@,
                    ) by {
                        lemma_scan_alike(self.source_code@, read, other, content, old(self)@);
                    }
                }
                true
            },
            None => false,
        }
    }
}

/// The error that no type is inferred for a node of this kind.
fn unsupported(node: &SyntaxNode) -> (e: ParseError)
    ensures
        e@ == error_at(ParseErrTypeView::UnsupportedExpression(node.kind.tag_text()), *node),
{
    ParseError {
        err_type: ParseErrType::UnsupportedExpression(node.kind.tag()),
        start: node.start_byte,
        end: node.end_byte,
    }
}

/// Counts the named nodes of `nodes` and finds the first of them.
fn named_children(nodes: &Vec<SyntaxNode>) -> (r: (usize, usize))
    ensures
        r.0 == named_count(nodes@, 0),
        r.1 == first_named(nodes@, 0),
{
    let mut i: usize = nodes.len();
    let mut count: usize = 0;
    let mut first: usize = nodes.len();
    while i > 0
        invariant
            i <= nodes.len(),
            count == named_count(nodes@, i as int),
            count <= nodes.len() - i,
            first == first_named(nodes@, i as int),
        decreases i,
    {
        i -= 1;
        if nodes[i].named {
            count += 1;
            first = i;
        }
    }
    (count, first)
}

/// The comment, when it is an annotation.
fn annotation_only(comment: Option<Comment>) -> (r: Option<Comment>)
    ensures
        comment_view(r) == as_annotation(comment_view(comment)),
{
    match comment {
        Some(c) => if matches!(c.kind, CommentKind::Annotation) {
            Some(c)
        } else {
            None
        },
        None => None,
    }
}

} // verus!
