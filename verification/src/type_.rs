//! The value types of the language.

use vstd::prelude::*;
use vstd::std_specs::cmp::PartialEqSpecImpl;
use crate::text::str_eq;

verus! {

/// A value type.
#[derive(Debug)]
pub enum Type {
    /// A built-in scalar kind, by name.
    Primitive(String),
    /// A function type: the return type, then the parameter types in order.
    Function(Box<Type>, Vec<Type>),
    /// A name-parameterized container and its element type.
    Generic(String, Box<Type>),
    /// A nominal record: its name, then its fields in declaration order.
    Struct(String, Vec<(String, Type)>),
}

/// The mathematical value of a [`Type`]: names are character sequences and
/// lists are sequences. Two types are equal exactly when their views are.
pub ghost enum TypeView {
    Primitive(Seq<char>),
    Function(Box<TypeView>, Seq<TypeView>),
    Generic(Seq<char>, Box<TypeView>),
    Struct(Seq<char>, Seq<(Seq<char>, TypeView)>),
}

/// View of one type.
pub open spec fn type_view(t: Type) -> TypeView
    decreases t, 0int,
{
    match t {
        Type::Primitive(name) => TypeView::Primitive(name@),
        Type::Function(ret, params) => TypeView::Function(
            Box::new(type_view(*ret)),
            types_view(params@),
        ),
        Type::Generic(name, elem) => TypeView::Generic(name@, Box::new(type_view(*elem))),
        Type::Struct(name, fields) => TypeView::Struct(name@, fields_view(fields@)),
    }
}

/// Views of a list of types, position by position.
pub open spec fn types_view(ts: Seq<Type>) -> Seq<TypeView>
    decreases ts, 1int,
{
    Seq::new(
        ts.len(),
        |i: int|
            if 0 <= i < ts.len() {
                type_view(ts[i])
            } else {
                arbitrary()
            },
    )
}

/// Views of a list of named types (struct fields, parameters, bindings),
/// position by position.
pub open spec fn fields_view(fs: Seq<(String, Type)>) -> Seq<(Seq<char>, TypeView)>
    decreases fs, 1int,
{
    Seq::new(
        fs.len(),
        |i: int|
            if 0 <= i < fs.len() {
                (fs[i].0@, type_view(fs[i].1))
            } else {
                arbitrary()
            },
    )
}

impl View for Type {
    type V = TypeView;

    open spec fn view(&self) -> TypeView {
        type_view(*self)
    }
}

/// The type of integers.
pub open spec fn int_type() -> TypeView {
    TypeView::Primitive("Int"@)
}

/// The type of truth values.
pub open spec fn bool_type() -> TypeView {
    TypeView::Primitive("Bool"@)
}

/// The type of strings.
pub open spec fn string_type() -> TypeView {
    TypeView::Primitive("String"@)
}

/// The type with a single value.
pub open spec fn unit_type() -> TypeView {
    TypeView::Primitive("Unit"@)
}

/// Whether the alignment table has an entry for `t`: the primitives `Bool`,
/// `Int`, `Char` and `String`, and every generic container.
pub open spec fn has_align(t: TypeView) -> bool {
    match t {
        TypeView::Primitive(name) => name == "Bool"@ || name == "Int"@ || name == "Char"@ || name
            == "String"@,
        TypeView::Generic(_, _) => true,
        _ => false,
    }
}

/// The alignment in bytes of a value of type `t`, for the types that
/// [`has_align`] admits.
pub open spec fn align_of(t: TypeView) -> nat {
    match t {
        TypeView::Primitive(name) => if name == "Bool"@ {
            1
        } else if name == "Int"@ {
            4
        } else if name == "Char"@ {
            1
        } else {
            8
        },
        _ => 8,
    }
}

/// The position of the first field called `name` at or after position `from`.
pub open spec fn field_from(fields: Seq<(Seq<char>, TypeView)>, name: Seq<char>, from: int) -> Option<int>
    decreases fields.len() - from,
{
    if from < 0 || from >= fields.len() {
        None
    } else if fields[from].0 == name {
        Some(from)
    } else {
        field_from(fields, name, from + 1)
    }
}

/// The position of the field called `name` in the declared order: the first
/// field of that name, counted from zero.
pub open spec fn field_index(fields: Seq<(Seq<char>, TypeView)>, name: Seq<char>) -> Option<int> {
    field_from(fields, name, 0)
}

/// A field lookup finds the first field of the name, where it was declared:
/// the position found holds that name and no earlier position does, and
/// nothing is found only if no field has the name.
pub proof fn lemma_field_from(fields: Seq<(Seq<char>, TypeView)>, name: Seq<char>, from: int)
    requires
        0 <= from,
    ensures
        match field_from(fields, name, from) {
            Some(i) => from <= i < fields.len() && fields[i].0 == name && forall|j: int|
                from <= j < i ==> fields[j].0 != name,
            None => forall|j: int| from <= j < fields.len() ==> fields[j].0 != name,
        },
    decreases fields.len() - from,
{
    if from < fields.len() && fields[from].0 != name {
        lemma_field_from(fields, name, from + 1);
    }
}

/// Field order is kept: where no two fields share a name, looking up the name
/// of the field declared at position `i` gives position `i`.
pub proof fn lemma_field_index_of_declared(fields: Seq<(Seq<char>, TypeView)>, i: int)
    requires
        0 <= i < fields.len(),
        forall|j: int, k: int| 0 <= j < k < fields.len() ==> fields[j].0 != fields[k].0,
    ensures
        field_index(fields, fields[i].0) == Some(i),
{
    lemma_field_from(fields, fields[i].0, 0);
}

impl Type {
    /// The type `Int`.
    pub fn integer() -> (t: Self)
        ensures
            t@ == int_type(),
    {
        Type::Primitive("Int".to_string())
    }

    /// The type `Bool`.
    pub fn boolean() -> (t: Self)
        ensures
            t@ == bool_type(),
    {
        Type::Primitive("Bool".to_string())
    }

    /// The type `String`.
    pub fn string() -> (t: Self)
        ensures
            t@ == string_type(),
    {
        Type::Primitive("String".to_string())
    }

    /// The type `Unit`.
    pub fn unit() -> (t: Self)
        ensures
            t@ == unit_type(),
    {
        Type::Primitive("Unit".to_string())
    }

    /// Whether the alignment table covers this type.
    pub fn is_aligned(&self) -> (known: bool)
        ensures
            known == has_align(self@),
    {
        match self {
            Type::Primitive(name) => str_eq(name.as_str(), "Bool") || str_eq(name.as_str(), "Int")
                || str_eq(name.as_str(), "Char") || str_eq(name.as_str(), "String"),
            Type::Generic(_, _) => true,
            _ => false,
        }
    }

    /// Alignment in bytes of a value of this type.
    pub fn align(&self) -> (bytes: usize)
        requires
            has_align(self@),
        ensures
            bytes == align_of(self@),
    {
        match self {
            Type::Primitive(name) => {
                if str_eq(name.as_str(), "Bool") {
                    1
                } else if str_eq(name.as_str(), "Int") {
                    4
                } else if str_eq(name.as_str(), "Char") {
                    1
                } else {
                    8
                }
            },
            _ => 8,
        }
    }

    /// Structural equality: same variant, same names, and equal components
    /// in the same order.
    pub fn same(&self, other: &Type) -> (equal: bool)
        ensures
            equal == (self@ == other@),
        decreases *self,
    {
        match self {
            Type::Primitive(a) => match other {
                Type::Primitive(b) => str_eq(a.as_str(), b.as_str()),
                _ => false,
            },
            Type::Function(ra, pa) => match other {
                Type::Function(rb, pb) => ra.same(rb) && Type::same_list(pa, pb),
                _ => false,
            },
            Type::Generic(a, ea) => match other {
                Type::Generic(b, eb) => str_eq(a.as_str(), b.as_str()) && ea.same(eb),
                _ => false,
            },
            Type::Struct(a, fa) => match other {
                Type::Struct(b, fb) => str_eq(a.as_str(), b.as_str()) && Type::same_fields(fa, fb),
                _ => false,
            },
        }
    }

    /// Whether two lists of types agree in length and position by position.
    pub fn same_list(a: &Vec<Type>, b: &Vec<Type>) -> (equal: bool)
        ensures
            equal == (types_view(a@) == types_view(b@)),
        decreases *a,
    {
        if a.len() != b.len() {
            assert(types_view(a@).len() != types_view(b@).len());
            return false;
        }
        let mut i: usize = 0;
        while i < a.len()
            invariant
                i <= a.len(),
                a.len() == b.len(),
                forall|j: int| 0 <= j < i ==> type_view(a@[j]) == type_view(b@[j]),
            decreases a.len() - i,
        {
            if !a[i].same(&b[i]) {
                assert(types_view(a@)[i as int] != types_view(b@)[i as int]);
                return false;
            }
            i += 1;
        }
        assert(types_view(a@) =~= types_view(b@));
        true
    }

    /// Whether two lists of named types agree in length and, position by
    /// position, in name and type.
    pub fn same_fields(a: &Vec<(String, Type)>, b: &Vec<(String, Type)>) -> (equal: bool)
        ensures
            equal == (fields_view(a@) == fields_view(b@)),
        decreases *a,
    {
        if a.len() != b.len() {
            assert(fields_view(a@).len() != fields_view(b@).len());
            return false;
        }
        let mut i: usize = 0;
        while i < a.len()
            invariant
                i <= a.len(),
                a.len() == b.len(),
                forall|j: int| 0 <= j < i ==> fields_view(a@)[j] == fields_view(b@)[j],
            decreases a.len() - i,
        {
            if !str_eq(a[i].0.as_str(), b[i].0.as_str()) || !a[i].1.same(&b[i].1) {
                assert(fields_view(a@)[i as int] != fields_view(b@)[i as int]);
                return false;
            }
            i += 1;
        }
        assert(fields_view(a@) =~= fields_view(b@));
        true
    }

    /// The position of the field called `name` in a list of declared fields.
    pub fn field_position(fields: &Vec<(String, Type)>, name: &str) -> (found: Option<usize>)
        ensures
            found is Some == field_index(fields_view(fields@), name@) is Some,
            found matches Some(i) ==> i < fields.len() && field_index(fields_view(fields@), name@)
                == Some(i as int),
    {
        let mut i: usize = 0;
        while i < fields.len()
            invariant
                i <= fields.len(),
                field_index(fields_view(fields@), name@) == field_from(
                    fields_view(fields@),
                    name@,
                    i as int,
                ),
            decreases fields.len() - i,
        {
            if str_eq(fields[i].0.as_str(), name) {
                return Some(i);
            }
            i += 1;
        }
        None
    }

    /// A copy of a list of types.
    pub fn clone_list(list: &Vec<Type>) -> (copy: Vec<Type>)
        ensures
            types_view(copy@) == types_view(list@),
        decreases *list,
    {
        let mut copy: Vec<Type> = Vec::new();
        let mut i: usize = 0;
        while i < list.len()
            invariant
                i <= list.len(),
                copy.len() == i,
                forall|j: int| 0 <= j < i ==> type_view(copy@[j]) == type_view(list@[j]),
            decreases list.len() - i,
        {
            copy.push(list[i].clone());
            i += 1;
        }
        assert(types_view(copy@) =~= types_view(list@));
        copy
    }

    /// A copy of a list of named types.
    pub fn clone_fields(list: &Vec<(String, Type)>) -> (copy: Vec<(String, Type)>)
        ensures
            fields_view(copy@) == fields_view(list@),
        decreases *list,
    {
        let mut copy: Vec<(String, Type)> = Vec::new();
        let mut i: usize = 0;
        while i < list.len()
            invariant
                i <= list.len(),
                copy.len() == i,
                forall|j: int| 0 <= j < i ==> fields_view(copy@)[j] == fields_view(list@)[j],
            decreases list.len() - i,
        {
            copy.push((list[i].0.clone(), list[i].1.clone()));
            i += 1;
        }
        assert(fields_view(copy@) =~= fields_view(list@));
        copy
    }
}

impl Clone for Type {
    fn clone(&self) -> (copy: Self)
        ensures
            copy@ == self@,
        decreases *self,
    {
        match self {
            Type::Primitive(name) => Type::Primitive(name.clone()),
            Type::Function(ret, params) => Type::Function(
                Box::new((**ret).clone()),
                Type::clone_list(params),
            ),
            Type::Generic(name, elem) => Type::Generic(name.clone(), Box::new((**elem).clone())),
            Type::Struct(name, fields) => Type::Struct(name.clone(), Type::clone_fields(fields)),
        }
    }
}

impl PartialEq for Type {
    fn eq(&self, other: &Type) -> (equal: bool) {
        self.same(other)
    }
}

impl Eq for Type {

}

impl PartialEqSpecImpl for Type {
    open spec fn obeys_eq_spec() -> bool {
        true
    }

    open spec fn eq_spec(&self, other: &Type) -> bool {
        self@ == other@
    }
}

} // verus!
