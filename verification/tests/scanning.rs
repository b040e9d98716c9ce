use bashtyped::diagnostic::{Diagnostic, ParseErrType};
use bashtyped::{BashType, FileInfo, Method, TypeDeclaration};

fn or(a: BashType, b: BashType) -> BashType {
    BashType::Or(Box::new(a), Box::new(b))
}

fn scanned(source: &str) -> FileInfo<'_> {
    let mut file = FileInfo::new(source);
    assert!(file.parse_code());
    file
}

fn declared(bash_type: BashType, range: std::ops::Range<usize>) -> TypeDeclaration {
    TypeDeclaration {
        range,
        bash_type,
        method: Method::Declared,
    }
}

fn inferred(bash_type: BashType, range: std::ops::Range<usize>) -> TypeDeclaration {
    TypeDeclaration {
        range,
        bash_type,
        method: Method::Inferred,
    }
}

#[test]
fn new_scan_is_empty() {
    let file = FileInfo::new("a=1");
    assert_eq!(file.source_code, "a=1");
    assert_eq!(file.variables.len(), 0);
    assert!(file.errors.is_empty());
    assert!(!file.force);
}

#[test]
fn empty_script_gives_nothing() {
    let file = scanned("");
    assert_eq!(file.variables.len(), 0);
    assert!(file.errors.is_empty());
}

#[test]
fn bare_assignment_is_inferred_over_its_own_span() {
    let file = scanned("a=1");
    assert!(file.errors.is_empty());
    assert_eq!(file.variables.len(), 1);
    assert_eq!(
        file.variables.get("a"),
        Some(&inferred(BashType::Integer, 0..3))
    );
}

#[test]
fn trailing_annotation_extends_the_span_to_its_end() {
    let file = scanned("a=1 #/ int");
    assert!(file.errors.is_empty());
    assert_eq!(
        file.variables.get("a"),
        Some(&declared(BashType::Integer, 0..10))
    );
}

#[test]
fn leading_annotation_extends_the_span_to_its_start() {
    let file = scanned("#/ int | bool\na=1");
    assert!(file.errors.is_empty());
    assert_eq!(file.variables.len(), 1);
    assert_eq!(
        file.variables.get("a"),
        Some(&declared(or(BashType::Integer, BashType::Bool), 0..17))
    );
}

#[test]
fn trailing_annotation_wins_over_leading_one() {
    let file = scanned("#/ string\na=1 #/ int");
    assert!(file.errors.is_empty());
    assert_eq!(
        file.variables.get("a"),
        Some(&declared(BashType::Integer, 10..20))
    );
}

#[test]
fn last_of_several_leading_comments_counts() {
    let file = scanned("#/ int\n#/ string\na=\"s\"\n");
    assert!(file.errors.is_empty());
    assert_eq!(
        file.variables.get("a"),
        Some(&declared(BashType::String, 7..22))
    );
    let file = scanned("#/ int\n# plain\na=1\n");
    assert!(file.errors.is_empty());
    assert_eq!(
        file.variables.get("a"),
        Some(&inferred(BashType::Integer, 15..18))
    );
}

#[test]
fn plain_trailing_comment_leaves_the_leading_annotation() {
    let file = scanned("#/ int\na=1 # plain\n");
    assert!(file.errors.is_empty());
    assert_eq!(
        file.variables.get("a"),
        Some(&declared(BashType::Integer, 0..10))
    );
}

#[test]
fn compatible_rebinding_gives_no_diagnostic_and_keeps_the_first() {
    let file = scanned("a=1 #/ int | bool\na=1 #/ int | bool | string\n");
    assert!(file.errors.is_empty());
    assert_eq!(file.variables.len(), 1);
    assert_eq!(
        file.variables.get("a"),
        Some(&declared(or(BashType::Integer, BashType::Bool), 0..17))
    );
    let file = scanned("a=1\na=2 #/ int\n");
    assert!(file.errors.is_empty());
    assert_eq!(
        file.variables.get("a"),
        Some(&inferred(BashType::Integer, 0..3))
    );
}

#[test]
fn incompatible_rebinding_is_reported_and_never_stored() {
    let file = scanned("a=1\na=\"x\"\n");
    assert_eq!(file.errors.len(), 1);
    match &file.errors[0] {
        Diagnostic::Redeclaration {
            offset,
            name,
            previous,
            later,
        } => {
            assert_eq!(*offset, 4);
            assert_eq!(name, "a");
            assert_eq!(previous, &inferred(BashType::Integer, 0..3));
            assert_eq!(later, &inferred(BashType::String, 4..9));
        }
        other => panic!("{:?}", other),
    }
    assert_eq!(file.variables.len(), 1);
    assert_eq!(
        file.variables.get("a"),
        Some(&inferred(BashType::Integer, 0..3))
    );
}

#[test]
fn annotation_that_narrows_is_reported_and_nothing_is_bound() {
    let file = scanned("a=\"v\" #/ any\nb=\"$a\" #/ int ");
    assert_eq!(file.errors.len(), 1);
    match &file.errors[0] {
        Diagnostic::TypeMismatch {
            offset,
            specified,
            specified_range,
            inferred,
            inferred_range,
        } => {
            assert_eq!(*offset, 20);
            assert_eq!(specified, &BashType::Integer);
            assert_eq!(specified_range, &(20..27));
            assert_eq!(inferred, &BashType::Any);
            assert_eq!(inferred_range, &(13..19));
        }
        other => panic!("{:?}", other),
    }
    assert_eq!(file.variables.len(), 1);
    assert!(file.variables.get("b").is_none());
    assert_eq!(
        file.variables.get("a"),
        Some(&declared(BashType::Any, 0..12))
    );
}

#[test]
fn union_does_not_narrow_to_one_of_its_members() {
    let file = scanned("a=1 #/ int|bool\nb=\"$a\" #/ bool");
    assert!(!file.errors.is_empty());
    assert!(matches!(file.errors[0], Diagnostic::TypeMismatch { .. }));
    assert!(file.variables.get("b").is_none());
    assert_eq!(file.variables.len(), 1);
}

#[test]
fn first_inferred_second_declared() {
    let file = scanned("a=1\nb=3 #/ int");
    assert!(file.errors.is_empty());
    assert_eq!(file.variables.len(), 2);
    assert_eq!(
        file.variables.get("a"),
        Some(&inferred(BashType::Integer, 0..3))
    );
    assert_eq!(
        file.variables.get("b"),
        Some(&declared(BashType::Integer, 4..14))
    );
}

#[test]
fn force_lets_one_statement_through() {
    let file = scanned("a=1\n#[force]\na=\"x\"\na=\"y\"\n");
    assert_eq!(file.errors.len(), 1);
    match &file.errors[0] {
        Diagnostic::Redeclaration { offset, later, .. } => {
            assert_eq!(*offset, 19);
            assert_eq!(later, &inferred(BashType::String, 19..24));
        }
        other => panic!("{:?}", other),
    }
    assert_eq!(
        file.variables.get("a"),
        Some(&inferred(BashType::Integer, 0..3))
    );
}

#[test]
fn force_lets_a_mismatched_annotation_through() {
    let file = scanned("#[force]\na=1 #/ string\nb=1 #/ string\n");
    assert_eq!(file.errors.len(), 1);
    assert!(matches!(
        file.errors[0],
        Diagnostic::TypeMismatch { offset: 27, .. }
    ));
    assert_eq!(
        file.variables.get("a"),
        Some(&declared(BashType::String, 9..22))
    );
    assert!(file.variables.get("b").is_none());
}

#[test]
fn without_force_the_conflict_is_reported() {
    let file = scanned("a=1\na=\"x\"\na=\"y\"\n");
    assert_eq!(file.errors.len(), 2);
}

#[test]
fn unknown_variable_is_reported_once_and_nothing_is_bound() {
    let file = scanned("b=\"$undefined\"");
    assert_eq!(file.variables.len(), 0);
    assert_eq!(file.errors.len(), 1);
    match &file.errors[0] {
        Diagnostic::Parse { offset, error } => {
            assert_eq!(*offset, 2);
            assert_eq!((error.start, error.end), (4, 13));
            match &error.err_type {
                ParseErrType::UnknownVariable(name) => assert_eq!(name, "undefined"),
                other => panic!("{:?}", other),
            }
        }
        other => panic!("{:?}", other),
    }
}

#[test]
fn set_var_declares_without_an_assignment() {
    let file = scanned("#[set_var(x, int | bool)]\n");
    assert!(file.errors.is_empty());
    assert_eq!(
        file.variables.get("x"),
        Some(&declared(or(BashType::Integer, BashType::Bool), 0..25))
    );
}

#[test]
fn set_var_is_held_against_later_assignments() {
    let file = scanned("#[set_var(x, int)]\nx=\"s\"\ny=\"$x\"\n");
    assert_eq!(file.errors.len(), 1);
    match &file.errors[0] {
        Diagnostic::Redeclaration {
            offset,
            name,
            previous,
            later,
        } => {
            assert_eq!(*offset, 19);
            assert_eq!(name, "x");
            assert_eq!(previous, &declared(BashType::Integer, 19..24));
            assert_eq!(later, &inferred(BashType::String, 19..24));
        }
        other => panic!("{:?}", other),
    }
    assert_eq!(
        file.variables.get("y"),
        Some(&inferred(BashType::Integer, 25..31))
    );
}

#[test]
fn set_var_with_one_argument_is_missing_one() {
    let file = scanned("#[set_var(x)]\n");
    assert_eq!(file.variables.len(), 0);
    assert_eq!(file.errors.len(), 1);
    match &file.errors[0] {
        Diagnostic::Parse { offset, error } => {
            assert_eq!(*offset, 0);
            assert_eq!((error.start, error.end), (0, 13));
            assert!(matches!(
                error.err_type,
                ParseErrType::MissingArgument {
                    expected: 2,
                    received: 1
                }
            ));
        }
        other => panic!("{:?}", other),
    }
}

#[test]
fn set_var_with_a_malformed_type_is_reported() {
    let file = scanned("#[set_var(x, nonsense)]\n");
    assert_eq!(file.variables.len(), 0);
    assert_eq!(file.errors.len(), 1);
    match &file.errors[0] {
        Diagnostic::Parse { error, .. } => {
            assert_eq!((error.start, error.end), (0, 23));
            match &error.err_type {
                ParseErrType::MalformedTypeExpression(text) => assert_eq!(text, " nonsense"),
                other => panic!("{:?}", other),
            }
        }
        other => panic!("{:?}", other),
    }
}

#[test]
fn malformed_annotation_is_reported_and_nothing_is_bound() {
    let file = scanned("a=1 #/ integer\n");
    assert_eq!(file.variables.len(), 0);
    assert_eq!(file.errors.len(), 1);
    match &file.errors[0] {
        Diagnostic::Parse { offset, error } => {
            assert_eq!(*offset, 4);
            assert_eq!((error.start, error.end), (4, 14));
            match &error.err_type {
                ParseErrType::MalformedTypeExpression(text) => assert_eq!(text, "integer"),
                other => panic!("{:?}", other),
            }
        }
        other => panic!("{:?}", other),
    }
}

#[test]
fn value_of_an_unsupported_kind_is_reported() {
    let file = scanned("a='raw'\n");
    assert_eq!(file.variables.len(), 0);
    assert_eq!(file.errors.len(), 1);
    match &file.errors[0] {
        Diagnostic::Parse { offset, error } => {
            assert_eq!(*offset, 2);
            assert_eq!((error.start, error.end), (2, 7));
            match &error.err_type {
                ParseErrType::UnsupportedExpression(kind) => assert_eq!(kind, "raw_string"),
                other => panic!("{:?}", other),
            }
        }
        other => panic!("{:?}", other),
    }
}

#[test]
fn scan_goes_on_after_an_error() {
    let file = scanned("a='raw'\nb=2\n");
    assert_eq!(file.errors.len(), 1);
    assert_eq!(
        file.variables.get("b"),
        Some(&inferred(BashType::Integer, 8..11))
    );
}

#[test]
fn assignments_inside_blocks_are_bound() {
    let file = scanned("if true; then\n  a=1 #/ int\nfi\n");
    assert!(file.errors.is_empty());
    assert_eq!(
        file.variables.get("a"),
        Some(&declared(BashType::Integer, 16..26))
    );
}

#[test]
fn spans_count_bytes_not_characters() {
    let file = scanned("a=é #/ string\n");
    assert!(file.errors.is_empty());
    assert_eq!(
        file.variables.get("a"),
        Some(&declared(BashType::String, 0..14))
    );
}

#[test]
fn mixed_string_is_a_string() {
    let file = scanned("a=1\nb=\"I love $a\"");
    assert!(file.errors.is_empty());
    assert_eq!(
        file.variables.get("b"),
        Some(&inferred(BashType::String, 4..17))
    );
}

#[test]
fn second_scan_adds_to_the_first() {
    let mut file = FileInfo::new("a=1\na=\"x\"\n");
    assert!(file.parse_code());
    assert_eq!(file.errors.len(), 1);
    assert!(file.parse_code());
    assert_eq!(file.errors.len(), 2);
    assert_eq!(file.variables.len(), 1);
    assert_eq!(
        file.variables.get("a"),
        Some(&inferred(BashType::Integer, 0..3))
    );
}

#[test]
fn set_variable_binds_once() {
    let mut file = FileInfo::new("");
    file.set_variable("v", inferred(BashType::Integer, 0..3), 0);
    file.set_variable(
        "v",
        declared(or(BashType::Integer, BashType::String), 4..9),
        4,
    );
    assert!(file.errors.is_empty());
    file.set_variable("v", declared(BashType::String, 10..12), 10);
    assert_eq!(file.errors.len(), 1);
    file.force = true;
    file.set_variable("v", declared(BashType::Bool, 13..15), 13);
    assert_eq!(file.errors.len(), 1);
    assert_eq!(file.variables.len(), 1);
    assert_eq!(
        file.variables.get("v"),
        Some(&inferred(BashType::Integer, 0..3))
    );
}

#[test]
fn directive_after_an_assignment_is_left_for_the_next_statement() {
    let file = scanned("a=1 #[force]\na=\"x\"\n");
    assert!(file.errors.is_empty());
    assert_eq!(
        file.variables.get("a"),
        Some(&inferred(BashType::Integer, 0..3))
    );
    let file = scanned("#[set_var(x, int)]\nx=1 #[set_var(y, bool)]\n");
    assert!(file.errors.is_empty());
    assert_eq!(file.variables.len(), 2);
    assert_eq!(
        file.variables.get("y"),
        Some(&declared(BashType::Bool, 23..42))
    );
}

#[test]
fn comment_after_an_assignment_is_its_annotation_on_any_line() {
    let file = scanned("a=1\n#/ string\nb=\"x\"\n");
    assert_eq!(file.errors.len(), 1);
    match &file.errors[0] {
        Diagnostic::TypeMismatch {
            offset,
            specified,
            specified_range,
            inferred,
            inferred_range,
        } => {
            assert_eq!(*offset, 4);
            assert_eq!(specified, &BashType::String);
            assert_eq!(specified_range, &(4..13));
            assert_eq!(inferred, &BashType::Integer);
            assert_eq!(inferred_range, &(0..3));
        }
        other => panic!("{:?}", other),
    }
    assert!(file.variables.get("a").is_none());
    assert_eq!(
        file.variables.get("b"),
        Some(&inferred(BashType::String, 14..19))
    );
}

#[test]
fn comment_after_a_failed_assignment_is_carried_over() {
    let file = scanned("b=\"$undefined\" #/ int\nc=\"x\"\n");
    assert_eq!(file.errors.len(), 2);
    assert!(matches!(file.errors[0], Diagnostic::Parse { offset: 2, .. }));
    assert!(matches!(
        file.errors[1],
        Diagnostic::TypeMismatch { offset: 22, .. }
    ));
    assert_eq!(file.variables.len(), 0);
}

#[test]
fn assignment_without_a_value_is_unsupported() {
    let file = scanned("c=\n");
    assert_eq!(file.variables.len(), 0);
    assert_eq!(file.errors.len(), 1);
    match &file.errors[0] {
        Diagnostic::Parse { offset, error } => {
            assert_eq!(*offset, 1);
            assert_eq!((error.start, error.end), (1, 2));
            match &error.err_type {
                ParseErrType::UnsupportedExpression(kind) => assert_eq!(kind, "="),
                other => panic!("{:?}", other),
            }
        }
        other => panic!("{:?}", other),
    }
}

#[test]
fn same_source_gives_the_same_scan() {
    let source = "a=1 #/ int | bool\n#[force]\nb=\"$a\" #/ string\nc=\"$missing\"\na='x'\n";
    let first = scanned(source);
    let second = scanned(source);
    assert_eq!(first.errors.len(), second.errors.len());
    for (left, right) in first.errors.iter().zip(second.errors.iter()) {
        assert_eq!(left.offset(), right.offset());
        assert_eq!(left.message(), right.message());
    }
    assert_eq!(first.variables.len(), second.variables.len());
    for name in ["a", "b", "c"] {
        assert_eq!(first.variables.get(name), second.variables.get(name));
    }
    assert_eq!(
        first.variables.get("b"),
        Some(&declared(BashType::String, 27..43))
    );
}

#[test]
fn every_text_is_parsed() {
    for source in ["", "\n\n", "a=", "if then fi )(", "é=ü # ß", "a=1 #/ int\n#[set_var(x)]"] {
        let mut file = FileInfo::new(source);
        assert!(file.parse_code(), "{:?}", source);
    }
}
