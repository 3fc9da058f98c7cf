use vstd::prelude::*;
use vstd::string::StringExecFns;
use std::marker::PhantomData;
use crate::chance::random_below;

verus! {

/// A type with a name and a few things worth knowing about it.
pub trait HasFact {
    spec fn name_text() -> Seq<char>;

    spec fn facts() -> Seq<Seq<char>>;

    /// The type's name.
    fn name() -> (r: &'static str)
        ensures
            r@ == Self::name_text(),
    ;

    /// One of the facts, drawn at random.
    fn fact() -> (r: &'static str)
        ensures
            Self::facts().contains(r@),
    ;
}

impl<T> HasFact for Vec<T> {
    open spec fn name_text() -> Seq<char> {
        "Vec"@
    }

    open spec fn facts() -> Seq<Seq<char>> {
        seq![
            "Vec is heap-allocated"@,
            "Vec may re-allocate on growing"@,
            "Vec<T> is an owned version of &[T]"@,
        ]
    }

    fn name() -> (r: &'static str) {
        "Vec"
    }

    fn fact() -> (r: &'static str) {
        let i = random_below(3);
        let r = if i == 0 {
            "Vec is heap-allocated"
        } else if i == 1 {
            "Vec may re-allocate on growing"
        } else {
            "Vec<T> is an owned version of &[T]"
        };
        assert(Self::facts()[i as int] == r@);
        r
    }
}

impl HasFact for [i32] {
    open spec fn name_text() -> Seq<char> {
        "[i32]"@
    }

    open spec fn facts() -> Seq<Seq<char>> {
        seq!["[i32] is a Dynamically Sized Type"@, "[i32] is a view into memory"@]
    }

    fn name() -> (r: &'static str) {
        "[i32]"
    }

    fn fact() -> (r: &'static str) {
        let i = random_below(2);
        let r = if i == 0 {
            "[i32] is a Dynamically Sized Type"
        } else {
            "[i32] is a view into memory"
        };
        assert(Self::facts()[i as int] == r@);
        r
    }
}

impl HasFact for () {
    open spec fn name_text() -> Seq<char> {
        "()"@
    }

    open spec fn facts() -> Seq<Seq<char>> {
        seq![
            "() is zero bytes in size"@,
            "() is returned by functions without return type specified"@,
        ]
    }

    fn name() -> (r: &'static str) {
        "()"
    }

    fn fact() -> (r: &'static str) {
        let i = random_below(2);
        let r = if i == 0 {
            "() is zero bytes in size"
        } else {
            "() is returned by functions without return type specified"
        };
        assert(Self::facts()[i as int] == r@);
        r
    }
}

/// `Fact about <name>: <fact>.`
pub open spec fn fact_line(name: Seq<char>, fact: Seq<char>) -> Seq<char> {
    "Fact about "@ + name + ": "@ + fact + "."@
}

/// Tells facts about the type `T`.
pub struct Fact<T: ?Sized>(PhantomData<T>);

impl<T: ?Sized + HasFact> Fact<T> {
    pub fn new() -> Fact<T> {
        Fact(PhantomData)
    }

    /// A line with the name of `T` and one of its facts, drawn at random.
    pub fn fact(&self) -> (r: String)
        ensures
            exists|f: Seq<char>| T::facts().contains(f) && r@ == fact_line(T::name_text(), f),
    {
        let name = T::name();
        let fact = T::fact();
        let mut s = String::from_str("Fact about ");
        s.append(name);
        s.append(": ");
        s.append(fact);
        s.append(".");
        assert(s@ == fact_line(T::name_text(), fact@));
        s
    }
}

} // verus!
