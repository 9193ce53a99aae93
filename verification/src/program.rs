//! Whole programs.

use vstd::prelude::*;
use crate::expr::erase;
use crate::function::{Function, FunctionView};
use crate::text::str_eq;
use crate::type_::{fields_view, Type, TypeView};

verus! {

/// A program: its functions in source order, and its struct declarations,
/// each a name with the declared fields in order.
#[derive(Debug, PartialEq, Eq)]
pub struct Program {
    pub functions: Vec<Function>,
    pub structs: Vec<(String, Vec<(String, Type)>)>,
}

/// A struct declaration as a mathematical value: the name and the fields.
pub type StructView = (Seq<char>, Seq<(Seq<char>, TypeView)>);

/// The mathematical value of a [`Program`].
pub ghost struct ProgramView {
    pub functions: Seq<FunctionView>,
    pub structs: Seq<StructView>,
}

/// Views of a list of functions, position by position.
pub open spec fn functions_view(fs: Seq<Function>) -> Seq<FunctionView> {
    Seq::new(fs.len(), |i: int| fs[i]@)
}

/// Views of a list of struct declarations, position by position.
pub open spec fn structs_view(ss: Seq<(String, Vec<(String, Type)>)>) -> Seq<StructView> {
    Seq::new(ss.len(), |i: int| (ss[i].0@, fields_view(ss[i].1@)))
}

impl View for Program {
    type V = ProgramView;

    open spec fn view(&self) -> ProgramView {
        ProgramView {
            functions: functions_view(self.functions@),
            structs: structs_view(self.structs@),
        }
    }
}

/// `p` with every annotation slot of every function body emptied.
pub open spec fn erase_program(p: ProgramView) -> ProgramView {
    ProgramView {
        functions: Seq::new(
            p.functions.len(),
            |i: int|
                FunctionView {
                    name: p.functions[i].name,
                    args: p.functions[i].args,
                    return_type: p.functions[i].return_type,
                    body: erase(p.functions[i].body),
                },
        ),
        structs: p.structs,
    }
}

/// Whether no two declarations of `structs` share a name: the declarations
/// are then a mapping from struct names to field lists.
pub open spec fn distinct_names(structs: Seq<StructView>) -> bool {
    forall|i: int, j: int| 0 <= i < j < structs.len() ==> structs[i].0 != structs[j].0
}

/// The position of the declaration of the struct `name` at or after
/// position `from`, if there is one.
pub open spec fn declared_from(structs: Seq<StructView>, name: Seq<char>, from: int) -> Option<int>
    decreases structs.len() - from,
{
    if from < 0 || from >= structs.len() {
        None
    } else if structs[from].0 == name {
        Some(from)
    } else {
        declared_from(structs, name, from + 1)
    }
}

/// The struct declarations after `name` is declared with `fields`: the new
/// declaration stands where the first one of that name stood, or, if there
/// was none, at the end.
pub open spec fn declare(
    structs: Seq<StructView>,
    name: Seq<char>,
    fields: Seq<(Seq<char>, TypeView)>,
) -> Seq<StructView> {
    match declared_from(structs, name, 0) {
        Some(i) => structs.update(i, (name, fields)),
        None => structs.push((name, fields)),
    }
}

/// Where a name is looked for from position `from` on, what is found lies
/// there, holds the name, and is the first to do so; nothing is found only
/// if no declaration from there on holds the name.
pub proof fn lemma_declared_from(structs: Seq<StructView>, name: Seq<char>, from: int)
    requires
        0 <= from,
    ensures
        match declared_from(structs, name, from) {
            Some(i) => from <= i < structs.len() && structs[i].0 == name && forall|j: int|
                from <= j < i ==> structs[j].0 != name,
            None => forall|j: int| from <= j < structs.len() ==> structs[j].0 != name,
        },
    decreases structs.len() - from,
{
    if from < structs.len() && structs[from].0 != name {
        lemma_declared_from(structs, name, from + 1);
    }
}

/// Declaring a struct keeps the names distinct.
pub proof fn lemma_declare_keeps_names_distinct(
    structs: Seq<StructView>,
    name: Seq<char>,
    fields: Seq<(Seq<char>, TypeView)>,
)
    requires
        distinct_names(structs),
    ensures
        distinct_names(declare(structs, name, fields)),
{
    lemma_declared_from(structs, name, 0);
}

impl Program {
    /// The empty program.
    pub fn new() -> (program: Self)
        ensures
            program@.functions.len() == 0,
            program@.structs.len() == 0,
    {
        Program { functions: Vec::new(), structs: Vec::new() }
    }

    /// Declares the struct `name` with the given fields. A struct that is
    /// declared already gets the new fields and keeps its place.
    pub fn add_struct(&mut self, name: String, fields: Vec<(String, Type)>)
        ensures
            final(self)@.functions == old(self)@.functions,
            final(self)@.structs == declare(old(self)@.structs, name@, fields_view(fields@)),
            distinct_names(old(self)@.structs) ==> distinct_names(final(self)@.structs),
    {
        let ghost before = self@.structs;
        let mut i: usize = 0;
        while i < self.structs.len()
            invariant
                i <= self.structs.len(),
                *self == *old(self),
                before == structs_view(self.structs@),
                declared_from(before, name@, 0) == declared_from(before, name@, i as int),
            decreases self.structs.len() - i,
        {
            if str_eq(self.structs[i].0.as_str(), name.as_str()) {
                self.structs[i] = (name, fields);
                assert(structs_view(self.structs@) =~= before.update(
                    i as int,
                    (name@, fields_view(fields@)),
                ));
                proof {
                    if distinct_names(before) {
                        lemma_declare_keeps_names_distinct(before, name@, fields_view(fields@));
                    }
                }
                return ;
            }
            i += 1;
        }
        self.structs.push((name, fields));
        assert(structs_view(self.structs@) =~= before.push((name@, fields_view(fields@))));
        proof {
            if distinct_names(before) {
                lemma_declare_keeps_names_distinct(before, name@, fields_view(fields@));
            }
        }
    }
}

impl Clone for Program {
    fn clone(&self) -> (copy: Self)
        ensures
            copy@ == self@,
    {
        let mut functions: Vec<Function> = Vec::new();
        let mut i: usize = 0;
        while i < self.functions.len()
            invariant
                i <= self.functions.len(),
                functions.len() == i,
                forall|j: int| 0 <= j < i ==> functions@[j]@ == self.functions@[j]@,
            decreases self.functions.len() - i,
        {
            functions.push(self.functions[i].clone());
            i += 1;
        }
        let mut structs: Vec<(String, Vec<(String, Type)>)> = Vec::new();
        let mut k: usize = 0;
        while k < self.structs.len()
            invariant
                k <= self.structs.len(),
                structs.len() == k,
                forall|j: int|
                    0 <= j < k ==> structs@[j].0@ == self.structs@[j].0@ && fields_view(
                        structs@[j].1@,
                    ) == fields_view(self.structs@[j].1@),
            decreases self.structs.len() - k,
        {
            structs.push((self.structs[k].0.clone(), Type::clone_fields(&self.structs[k].1)));
            k += 1;
        }
        assert(functions_view(functions@) =~= functions_view(self.functions@));
        assert(structs_view(structs@) =~= structs_view(self.structs@));
        Program { functions, structs }
    }
}

} // verus!
