//! The type lattice: scalar types, unions of them, and the two relations
//! `matches` (symmetric compatibility) and `can_contain` (widening).

use vstd::prelude::*;
use vstd::string::StringExecFns;

verus! {

/// The type of a shell value: one of four scalars, or the union of two types.
///
/// Unions nest to any depth. Equality is structural, so the order in which a
/// union was written down matters for `==` although it does not for
/// [`BashType::can_contain`].
#[derive(Debug, Eq)]
pub enum BashType {
    String,
    Integer,
    Bool,
    Any,
    Or(Box<BashType>, Box<BashType>),
}

/// Two scalars are compatible when they are equal or one of them is `Any`.
pub open spec fn compatible(a: BashType, b: BashType) -> bool {
    a is Any || b is Any || a == b
}

impl BashType {
    /// Whether this type is one of the four scalars.
    pub open spec fn is_scalar(self) -> bool {
        !(self is Or)
    }

    /// The number of scalars that this type is made of.
    pub open spec fn width(self) -> nat
        decreases self,
    {
        match self {
            BashType::Or(a, b) => a.width() + b.width(),
            _ => 1,
        }
    }

    /// The scalars of this type, from left to right.
    pub open spec fn members(self) -> Seq<BashType>
        decreases self,
    {
        match self {
            BashType::Or(a, b) => a.members() + b.members(),
            _ => seq![self],
        }
    }

    /// Some scalar of `self` is compatible with some scalar of `other`.
    pub open spec fn spec_matches(self, other: BashType) -> bool {
        exists|i: int, j: int|
            0 <= i < self.members().len() && 0 <= j < other.members().len() && compatible(
                #[trigger] self.members()[i],
                #[trigger] other.members()[j],
            )
    }

    /// Whether a variable of type `self` may take a value of type `other`.
    ///
    /// A union contains another union when every scalar of the other occurs
    /// in it; a union contains a scalar that one of its scalars is compatible
    /// with; a scalar contains what it equals, and `Any` contains everything.
    pub open spec fn spec_can_contain(self, other: BashType) -> bool {
        if self is Or {
            if other is Or {
                forall|j: int|
                    0 <= j < other.members().len() ==> self.members().contains(
                        #[trigger] other.members()[j],
                    )
            } else {
                self.spec_matches(other)
            }
        } else {
            self is Any || self == other
        }
    }
}

/// The members of a type are scalars, and there are `width` of them.
pub proof fn lemma_members(t: BashType)
    ensures
        t.members().len() == t.width(),
        t.width() >= 1,
        forall|i: int| 0 <= i < t.members().len() ==> (#[trigger] t.members()[i]).is_scalar(),
        t.is_scalar() ==> t.members() == seq![t],
    decreases t,
{
    match t {
        BashType::Or(a, b) => {
            lemma_members(*a);
            lemma_members(*b);
        },
        _ => {},
    }
}

/// A union matches what either of its branches matches, on either side.
pub proof fn lemma_matches_unfold(a: BashType, b: BashType)
    ensures
        a matches BashType::Or(l, r) ==> (a.spec_matches(b) <==> l.spec_matches(b)
            || r.spec_matches(b)),
        b matches BashType::Or(l, r) ==> (a.spec_matches(b) <==> a.spec_matches(*l)
            || a.spec_matches(*r)),
        a.is_scalar() && b.is_scalar() ==> (a.spec_matches(b) <==> compatible(a, b)),
        a.spec_matches(b) <==> b.spec_matches(a),
{
    lemma_members(a);
    lemma_members(b);
    if a.spec_matches(b) {
        let (i, j) = choose|i: int, j: int|
            0 <= i < a.members().len() && 0 <= j < b.members().len() && compatible(
                #[trigger] a.members()[i],
                #[trigger] b.members()[j],
            );
        assert(compatible(b.members()[j], a.members()[i]));
        if let BashType::Or(l, r) = a {
            lemma_members(*l);
            lemma_members(*r);
            if i < l.members().len() {
                assert(compatible(l.members()[i], b.members()[j]));
            } else {
                assert(compatible(r.members()[i - l.members().len()], b.members()[j]));
            }
        }
        if let BashType::Or(l, r) = b {
            lemma_members(*l);
            lemma_members(*r);
            if j < l.members().len() {
                assert(compatible(a.members()[i], l.members()[j]));
            } else {
                assert(compatible(a.members()[i], r.members()[j - l.members().len()]));
            }
        }
    }
    if b.spec_matches(a) {
        let (j, i) = choose|j: int, i: int|
            0 <= j < b.members().len() && 0 <= i < a.members().len() && compatible(
                #[trigger] b.members()[j],
                #[trigger] a.members()[i],
            );
        assert(compatible(a.members()[i], b.members()[j]));
    }
    if let BashType::Or(l, r) = a {
        lemma_members(*l);
        lemma_members(*r);
        if l.spec_matches(b) {
            let (i, j) = choose|i: int, j: int|
                0 <= i < l.members().len() && 0 <= j < b.members().len() && compatible(
                    #[trigger] l.members()[i],
                    #[trigger] b.members()[j],
                );
            assert(compatible(a.members()[i], b.members()[j]));
        }
        if r.spec_matches(b) {
            let (i, j) = choose|i: int, j: int|
                0 <= i < r.members().len() && 0 <= j < b.members().len() && compatible(
                    #[trigger] r.members()[i],
                    #[trigger] b.members()[j],
                );
            assert(compatible(a.members()[l.members().len() + i], b.members()[j]));
        }
    }
    if let BashType::Or(l, r) = b {
        lemma_members(*l);
        lemma_members(*r);
        if a.spec_matches(*l) {
            let (i, j) = choose|i: int, j: int|
                0 <= i < a.members().len() && 0 <= j < l.members().len() && compatible(
                    #[trigger] a.members()[i],
                    #[trigger] l.members()[j],
                );
            assert(compatible(a.members()[i], b.members()[j]));
        }
        if a.spec_matches(*r) {
            let (i, j) = choose|i: int, j: int|
                0 <= i < a.members().len() && 0 <= j < r.members().len() && compatible(
                    #[trigger] a.members()[i],
                    #[trigger] r.members()[j],
                );
            assert(compatible(a.members()[i], b.members()[l.members().len() + j]));
        }
    }
    if a.is_scalar() && b.is_scalar() {
        if compatible(a, b) {
            assert(compatible(a.members()[0], b.members()[0]));
        }
    }
}

impl BashType {
    /// Symmetric compatibility: whether the two types could describe one value.
    pub fn matches(&self, other: &Self) -> (r: bool)
        ensures
            r == self.spec_matches(*other),
        decreases self.width() + other.width(),
    {
        proof {
            lemma_matches_unfold(*self, *other);
            lemma_members(*self);
            lemma_members(*other);
        }
        if let BashType::Or(t1, t2) = self {
            proof {
                lemma_members(**t1);
                lemma_members(**t2);
            }
            return t1.matches(other) || t2.matches(other);
        }
        if let BashType::Or(t1, t2) = other {
            proof {
                lemma_members(**t1);
                lemma_members(**t2);
                lemma_matches_unfold(**t1, *self);
                lemma_matches_unfold(**t2, *self);
            }
            return t1.matches(self) || t2.matches(self);
        }
        let self_any: bool = matches!(self, BashType::Any);
        let other_any: bool = matches!(other, BashType::Any);
        self_any || other_any || self == other
    }

    /// The scalars that this type is made of, from left to right.
    pub fn types_from_or(&self) -> (v: Vec<Self>)
        ensures
            v@ == self.members(),
        decreases self,
    {
        if let BashType::Or(t1, t2) = self {
            let mut v = t1.types_from_or();
            let mut rest = t2.types_from_or();
            v.append(&mut rest);
            v
        } else {
            let mut v: Vec<Self> = Vec::new();
            v.push(self.clone());
            v
        }
    }

    /// Widening: whether a variable of this type may take a value of type
    /// `other`.
    pub fn can_contain(&self, other: &Self) -> (r: bool)
        ensures
            r == self.spec_can_contain(*other),
    {
        if let BashType::Or(t1, t2) = self {
            if let BashType::Or(_, _) = other {
                let self_types = self.types_from_or();
                let other_types = other.types_from_or();
                let mut j: usize = 0;
                while j < other_types.len()
                    invariant
                        self is Or,
                        other is Or,
                        j <= other_types.len(),
                        self_types@ == self.members(),
                        other_types@ == other.members(),
                        forall|k: int|
                            0 <= k < j ==> self.members().contains(#[trigger] other.members()[k]),
                    decreases other_types.len() - j,
                {
                    if !occurs_in(&self_types, &other_types[j]) {
                        assert(!self.members().contains(other.members()[j as int]));
                        return false;
                    }
                    j += 1;
                }
                true
            } else {
                proof {
                    lemma_matches_unfold(*self, *other);
                }
                t1.matches(other) || t2.matches(other)
            }
        } else {
            let self_any: bool = matches!(self, BashType::Any);
            self_any || self == other
        }
    }
}

impl BashType {
    /// How the type is written: the names of its scalars, joined by ` | `.
    pub open spec fn name(self) -> Seq<char>
        decreases self,
    {
        match self {
            BashType::Any => "any"@,
            BashType::String => "string"@,
            BashType::Bool => "bool"@,
            BashType::Integer => "int"@,
            BashType::Or(a, b) => a.name() + " | "@ + b.name(),
        }
    }

    /// Writes the type as an annotation would.
    pub fn to_string(&self) -> (s: String)
        ensures
            s@ == self.name(),
        decreases self,
    {
        match self {
            BashType::Any => "any".to_owned(),
            BashType::String => "string".to_owned(),
            BashType::Bool => "bool".to_owned(),
            BashType::Integer => "int".to_owned(),
            BashType::Or(a, b) => {
                let left = a.to_string();
                let right = b.to_string();
                left.concat(" | ").concat(right.as_str())
            },
        }
    }
}

/// Whether `wanted` is one of `types`.
fn occurs_in(types: &Vec<BashType>, wanted: &BashType) -> (r: bool)
    ensures
        r == types@.contains(*wanted),
{
    let mut i: usize = 0;
    while i < types.len()
        invariant
            i <= types.len(),
            forall|k: int| 0 <= k < i ==> types@[k] != *wanted,
        decreases types.len() - i,
    {
        if &types[i] == wanted {
            return true;
        }
        i += 1;
    }
    false
}

/// Matching is symmetric.
pub proof fn lemma_matches_is_symmetric(a: BashType, b: BashType)
    ensures
        a.spec_matches(b) == b.spec_matches(a),
{
    lemma_matches_unfold(a, b);
}

/// `Any` is the top of the lattice: it matches every type from either side,
/// and it contains every type, scalar or union.
pub proof fn lemma_any_is_top(t: BashType)
    ensures
        BashType::Any.spec_matches(t),
        t.spec_matches(BashType::Any),
        BashType::Any.spec_can_contain(t),
{
    lemma_members(t);
    lemma_members(BashType::Any);
    assert(compatible(BashType::Any.members()[0], t.members()[0]));
    assert(compatible(t.members()[0], BashType::Any.members()[0]));
}

/// Between two unions, containment is inclusion of the sets of their scalars.
pub proof fn lemma_union_containment_is_inclusion(container: BashType, value: BashType)
    requires
        container is Or,
        value is Or,
    ensures
        container.spec_can_contain(value) <==> value.members().to_set().subset_of(
            container.members().to_set(),
        ),
{
    let c = container.members();
    let v = value.members();
    if container.spec_can_contain(value) {
        assert forall|x: BashType| v.to_set().contains(x) implies c.to_set().contains(x) by {
            let j = choose|j: int| 0 <= j < v.len() && v[j] == x;
            assert(c.contains(v[j]));
        }
    }
    if v.to_set().subset_of(c.to_set()) {
        assert forall|j: int| 0 <= j < v.len() implies c.contains(#[trigger] v[j]) by {
            assert(v.to_set().contains(v[j]));
            assert(c.to_set().contains(v[j]));
        }
    }
}

/// Two unions made of the same scalars contain each other, in whatever order
/// and nesting the scalars were written.
pub proof fn lemma_same_members_contain_each_other(a: BashType, b: BashType)
    requires
        a is Or,
        b is Or,
        a.members().to_set() == b.members().to_set(),
    ensures
        a.spec_can_contain(b),
        b.spec_can_contain(a),
{
    lemma_union_containment_is_inclusion(a, b);
    lemma_union_containment_is_inclusion(b, a);
}

/// Widening goes one way: a union contains each of its scalars, and a scalar
/// other than `Any` contains no union.
pub proof fn lemma_widening_is_directional(union: BashType, scalar: BashType)
    requires
        union is Or,
        scalar.is_scalar(),
    ensures
        union.members().contains(scalar) ==> union.spec_can_contain(scalar),
        !(scalar is Any) ==> !scalar.spec_can_contain(union),
{
    lemma_members(scalar);
    if union.members().contains(scalar) {
        let i = choose|i: int| 0 <= i < union.members().len() && union.members()[i] == scalar;
        assert(compatible(union.members()[i], scalar.members()[0]));
    }
}

impl PartialEq for BashType {
    fn eq(&self, other: &Self) -> (r: bool)
        decreases self,
    {
        match (self, other) {
            (BashType::String, BashType::String) => true,
            (BashType::Integer, BashType::Integer) => true,
            (BashType::Bool, BashType::Bool) => true,
            (BashType::Any, BashType::Any) => true,
            (BashType::Or(a, b), BashType::Or(c, d)) => {
                let left: bool = (&**a).eq(&**c);
                let right: bool = (&**b).eq(&**d);
                left && right
            },
            _ => false,
        }
    }
}

impl vstd::std_specs::cmp::PartialEqSpecImpl for BashType {
    open spec fn obeys_eq_spec() -> bool {
        true
    }

    open spec fn eq_spec(&self, other: &Self) -> bool {
        *self == *other
    }
}

impl Clone for BashType {
    fn clone(&self) -> (r: Self)
        ensures
            r == *self,
        decreases self,
    {
        match self {
            BashType::String => BashType::String,
            BashType::Integer => BashType::Integer,
            BashType::Bool => BashType::Bool,
            BashType::Any => BashType::Any,
            BashType::Or(a, b) => BashType::Or(
                Box::new((&**a).clone()),
                Box::new((&**b).clone()),
            ),
        }
    }
}

} // verus!
