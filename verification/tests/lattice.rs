use bashtyped::BashType;

fn or(a: BashType, b: BashType) -> BashType {
    BashType::Or(Box::new(a), Box::new(b))
}

fn scalars() -> Vec<BashType> {
    vec![
        BashType::String,
        BashType::Integer,
        BashType::Bool,
        BashType::Any,
    ]
}

#[test]
fn any_matches_every_scalar_from_both_sides() {
    for t in scalars() {
        assert!(BashType::Any.matches(&t));
        assert!(t.matches(&BashType::Any));
    }
}

#[test]
fn any_contains_scalars_and_unions() {
    for t in scalars() {
        assert!(BashType::Any.can_contain(&t));
    }
    assert!(BashType::Any.can_contain(&or(BashType::Integer, BashType::String)));
    assert!(BashType::Any.can_contain(&or(
        BashType::Bool,
        or(BashType::Integer, BashType::String)
    )));
}

#[test]
fn union_contains_its_members_in_any_order() {
    let a = or(BashType::Integer, BashType::String);
    let b = or(BashType::String, BashType::Integer);
    assert!(a.can_contain(&b));
    assert!(b.can_contain(&a));
    assert_ne!(a, b);
}

#[test]
fn union_contains_itself_whatever_the_nesting() {
    let left = or(or(BashType::Integer, BashType::String), BashType::Bool);
    let right = or(BashType::Bool, or(BashType::String, BashType::Integer));
    assert!(left.can_contain(&right));
    assert!(right.can_contain(&left));
    assert!(left.can_contain(&left));
}

#[test]
fn widening_is_directional() {
    let union = or(BashType::Integer, BashType::Bool);
    assert!(union.can_contain(&BashType::Integer));
    assert!(!BashType::Integer.can_contain(&union));
}

#[test]
fn union_does_not_contain_a_wider_union() {
    let narrow = or(BashType::Integer, BashType::String);
    let wide = or(BashType::Integer, or(BashType::Bool, BashType::String));
    assert!(wide.can_contain(&narrow));
    assert!(!narrow.can_contain(&wide));
}

#[test]
fn union_with_any_holds_other_unions_by_members_only() {
    let with_any = or(BashType::Any, BashType::Integer);
    assert!(with_any.can_contain(&BashType::String));
    assert!(!with_any.can_contain(&or(BashType::String, BashType::Bool)));
    assert!(with_any.can_contain(&or(BashType::Integer, BashType::Any)));
}

#[test]
fn scalar_contains_only_itself() {
    assert!(BashType::Integer.can_contain(&BashType::Integer));
    assert!(!BashType::Integer.can_contain(&BashType::String));
    assert!(!BashType::Integer.can_contain(&BashType::Any));
    assert!(!BashType::String.can_contain(&BashType::Bool));
}

#[test]
fn matches_looks_into_unions_on_both_sides() {
    let union = or(BashType::Integer, BashType::Bool);
    assert!(union.matches(&BashType::Bool));
    assert!(BashType::Bool.matches(&union));
    assert!(!union.matches(&BashType::String));
    assert!(!BashType::String.matches(&union));
    assert!(union.matches(&or(BashType::String, BashType::Integer)));
    assert!(!union.matches(&or(BashType::String, BashType::String)));
    assert!(BashType::Integer.matches(&BashType::Integer));
    assert!(!BashType::Integer.matches(&BashType::Bool));
}

#[test]
fn types_from_or_flattens_in_order() {
    let nested = or(
        or(BashType::Integer, BashType::String),
        or(BashType::Bool, BashType::Integer),
    );
    assert_eq!(
        nested.types_from_or(),
        vec![
            BashType::Integer,
            BashType::String,
            BashType::Bool,
            BashType::Integer,
        ]
    );
    assert_eq!(BashType::Any.types_from_or(), vec![BashType::Any]);
}

#[test]
fn types_are_written_as_annotations() {
    assert_eq!(BashType::Any.to_string(), "any");
    assert_eq!(BashType::String.to_string(), "string");
    assert_eq!(BashType::Bool.to_string(), "bool");
    assert_eq!(BashType::Integer.to_string(), "int");
    assert_eq!(
        or(BashType::Integer, or(BashType::String, BashType::Bool)).to_string(),
        "int | string | bool"
    );
}

#[test]
fn clone_and_equality_are_structural() {
    let union = or(BashType::Integer, or(BashType::String, BashType::Bool));
    assert_eq!(union.clone(), union);
    assert_ne!(
        union,
        or(or(BashType::Integer, BashType::String), BashType::Bool)
    );
    assert_ne!(BashType::Integer, BashType::Bool);
}
