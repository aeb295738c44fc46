//! Declared types and their argument shapes. A type is either a required
//! scalar or the optional wrapper of an inner type; nothing else is told apart.
use vstd::prelude::*;
use crate::text::{chars_equal, copy_all};

verus! {

/// A type reference as the declaration spells it, with the parts that shape
/// analysis reads.
pub struct TypeRef {
    /// The type as written.
    pub text: Vec<char>,
    /// For a path type, the identifier of its first segment; `None` for any
    /// other kind of type (a reference, a tuple, ...).
    pub head: Option<Vec<char>>,
    /// The first generic argument of that first segment, when it is a type.
    pub first_arg: Option<Box<TypeRef>>,
}

/// How a declared type takes its value.
pub enum Shape {
    /// A value that must be given, of the type itself.
    Scalar(TypeRef),
    /// A value that may be missing, of the inner type when given.
    Optional(TypeRef),
}

pub open spec fn option_word() -> Seq<char> {
    seq!['O', 'p', 't', 'i', 'o', 'n']
}

/// Whether a type has the outer form of the optional wrapper: its path starts
/// with `Option` and carries an inner type.
pub open spec fn is_optional_form(t: TypeRef) -> bool {
    &&& t.head is Some
    &&& t.head.unwrap()@ == option_word()
    &&& t.first_arg is Some
}

/// The inner type of the optional form.
pub open spec fn inner_of(t: TypeRef) -> TypeRef {
    *t.first_arg.unwrap()
}

pub open spec fn shape_of(t: TypeRef) -> Shape {
    if is_optional_form(t) {
        Shape::Optional(inner_of(t))
    } else {
        Shape::Scalar(t)
    }
}

fn option_word_chars() -> (r: Vec<char>)
    ensures
        r@ == option_word(),
{
    let mut r: Vec<char> = Vec::new();
    r.push('O');
    r.push('p');
    r.push('t');
    r.push('i');
    r.push('o');
    r.push('n');
    assert(r@ =~= option_word());
    r
}

/// Whether `t` has the optional form.
pub fn optional_form(t: &TypeRef) -> (r: bool)
    ensures
        r == is_optional_form(*t),
{
    match &t.head {
        Some(h) => {
            let word = option_word_chars();
            chars_equal(h, &word) && t.first_arg.is_some()
        },
        None => false,
    }
}

/// The shape of a declared type: the optional form gives its inner type,
/// one level deep; every other type is a scalar of itself, unchanged.
pub fn classify(t: TypeRef) -> (r: Shape)
    ensures
        is_optional_form(t) ==> r == Shape::Optional(inner_of(t)),
        !is_optional_form(t) ==> r == Shape::Scalar(t),
{
    if optional_form(&t) {
        match t.first_arg {
            Some(inner) => Shape::Optional(*inner),
            None => Shape::Scalar(t),
        }
    } else {
        Shape::Scalar(t)
    }
}

/// How the raw text of a value of type `t` becomes the value: parsed as the
/// type whose text is given, or, for a type that is not a path, `None`: the
/// raw text is handed on as it is.
pub open spec fn parse_as(t: TypeRef) -> Option<Seq<char>> {
    if t.head is Some {
        Some(t.text@)
    } else {
        None
    }
}

pub fn parse_text(t: &TypeRef) -> (r: Option<Vec<char>>)
    ensures
        opt_view(r) == parse_as(*t),
{
    if t.head.is_some() {
        Some(copy_all(&t.text))
    } else {
        None
    }
}

pub open spec fn opt_view(o: Option<Vec<char>>) -> Option<Seq<char>> {
    match o {
        Some(v) => Some(v@),
        None => None,
    }
}

/// The name that a type gives an item: the first segment of a path, or the
/// fixed `Unknown App` for a type that is not a path.
pub open spec fn simple_name(t: TypeRef) -> Seq<char> {
    match t.head {
        Some(h) => h@,
        None => unknown_name(),
    }
}

pub open spec fn unknown_name() -> Seq<char> {
    seq!['U', 'n', 'k', 'n', 'o', 'w', 'n', ' ', 'A', 'p', 'p']
}

pub fn name_of(t: &TypeRef) -> (r: Vec<char>)
    ensures
        r@ == simple_name(*t),
{
    match &t.head {
        Some(h) => copy_all(h),
        None => {
            let mut r: Vec<char> = Vec::new();
            r.push('U');
            r.push('n');
            r.push('k');
            r.push('n');
            r.push('o');
            r.push('w');
            r.push('n');
            r.push(' ');
            r.push('A');
            r.push('p');
            r.push('p');
            assert(r@ =~= unknown_name());
            r
        },
    }
}

} // verus!
