//! The type checker: one recursive pass that resolves the type of every
//! expression node and writes it into the node's annotation slot, or stops
//! at the first violation of a typing rule.

use vstd::prelude::*;
use crate::expr::{
    arms_view, erase, erase_all, erase_arms, erase_inits, exprs_view, fully_annotated, info_view,
    inits_view, Expr, ExprView, Info, Operator,
};
use crate::function::{Function, FunctionView};
use crate::program::{erase_program, structs_view, Program, ProgramView, StructView};
use crate::text::str_eq;
use crate::type_::{
    bool_type, field_index, fields_view, int_type, string_type, types_view, unit_type, Type,
    TypeView,
};

verus! {

/// Why a program was rejected.
#[derive(Debug, PartialEq, Eq)]
pub enum CheckError {
    /// A condition of an `If` is not `Bool`.
    ConditionNotBoolean,
    /// The branches of an `If` do not all have one type.
    BranchTypeMismatch,
    /// The two bounds of a `For` differ in type.
    RangeTypeMismatch,
    /// The two operands of a binary operator or of an assignment differ in type.
    OperandTypeMismatch,
    /// The callee of an `Apply` is not of a function type.
    NotAFunction,
    /// The arguments of a call differ in number or type from the parameters.
    ArityOrArgTypeMismatch,
    /// A `Construct` names a struct that is not declared.
    UnknownStruct,
    /// The initializers of a `Construct` differ from the declared fields in
    /// name, type or order.
    FieldMismatch,
    /// The base of a `Dot` is not of a struct type.
    NotAStruct,
    /// The struct that a `Dot` reads has no field of that name.
    UnknownField,
    /// The argument of `Println` is not a `String`.
    PrintlnArgumentNotString,
    /// The named identifier is not in scope.
    UnboundIdentifier(String),
    /// The body of a function is not of the declared return type.
    ReturnTypeMismatch,
}

/// The mathematical value of a [`CheckError`].
pub ghost enum CheckErrorView {
    ConditionNotBoolean,
    BranchTypeMismatch,
    RangeTypeMismatch,
    OperandTypeMismatch,
    NotAFunction,
    ArityOrArgTypeMismatch,
    UnknownStruct,
    FieldMismatch,
    NotAStruct,
    UnknownField,
    PrintlnArgumentNotString,
    UnboundIdentifier(Seq<char>),
    ReturnTypeMismatch,
}

impl View for CheckError {
    type V = CheckErrorView;

    open spec fn view(&self) -> CheckErrorView {
        match self {
            CheckError::ConditionNotBoolean => CheckErrorView::ConditionNotBoolean,
            CheckError::BranchTypeMismatch => CheckErrorView::BranchTypeMismatch,
            CheckError::RangeTypeMismatch => CheckErrorView::RangeTypeMismatch,
            CheckError::OperandTypeMismatch => CheckErrorView::OperandTypeMismatch,
            CheckError::NotAFunction => CheckErrorView::NotAFunction,
            CheckError::ArityOrArgTypeMismatch => CheckErrorView::ArityOrArgTypeMismatch,
            CheckError::UnknownStruct => CheckErrorView::UnknownStruct,
            CheckError::FieldMismatch => CheckErrorView::FieldMismatch,
            CheckError::NotAStruct => CheckErrorView::NotAStruct,
            CheckError::UnknownField => CheckErrorView::UnknownField,
            CheckError::PrintlnArgumentNotString => CheckErrorView::PrintlnArgumentNotString,
            CheckError::UnboundIdentifier(name) => CheckErrorView::UnboundIdentifier(name@),
            CheckError::ReturnTypeMismatch => CheckErrorView::ReturnTypeMismatch,
        }
    }
}

/// What is said to the user about a violation.
pub open spec fn message_of(err: CheckErrorView) -> Seq<char> {
    match err {
        CheckErrorView::ConditionNotBoolean => "if condition must be boolean"@,
        CheckErrorView::BranchTypeMismatch => "if result must have same type"@,
        CheckErrorView::RangeTypeMismatch => "type error in for expression: from expr and to expr must have same type"@,
        CheckErrorView::OperandTypeMismatch => "lhs and rhs must have same type"@,
        CheckErrorView::NotAFunction => "type error: can not apply for non function expr"@,
        CheckErrorView::ArityOrArgTypeMismatch => "type error: not match function arg types"@,
        CheckErrorView::UnknownStruct => "can not construct non struct type"@,
        CheckErrorView::FieldMismatch => "type error: not match construct arg types"@,
        CheckErrorView::NotAStruct => "can not apply dot expr for non struct type"@,
        CheckErrorView::UnknownField => "type error: no such field in struct type"@,
        CheckErrorView::PrintlnArgumentNotString => "println expr accepts only string expr"@,
        CheckErrorView::UnboundIdentifier(name) => "error: unbound variable: "@ + name,
        CheckErrorView::ReturnTypeMismatch => "type error: not match return type"@,
    }
}

impl CheckError {
    /// What is said to the user about this violation.
    pub fn message(&self) -> (text: String)
        ensures
            text@ == message_of(self@),
    {
        match self {
            CheckError::ConditionNotBoolean => "if condition must be boolean".to_string(),
            CheckError::BranchTypeMismatch => "if result must have same type".to_string(),
            CheckError::RangeTypeMismatch => "type error in for expression: from expr and to expr must have same type".to_string(),
            CheckError::OperandTypeMismatch => "lhs and rhs must have same type".to_string(),
            CheckError::NotAFunction => "type error: can not apply for non function expr".to_string(),
            CheckError::ArityOrArgTypeMismatch => "type error: not match function arg types".to_string(),
            CheckError::UnknownStruct => "can not construct non struct type".to_string(),
            CheckError::FieldMismatch => "type error: not match construct arg types".to_string(),
            CheckError::NotAStruct => "can not apply dot expr for non struct type".to_string(),
            CheckError::UnknownField => "type error: no such field in struct type".to_string(),
            CheckError::PrintlnArgumentNotString => "println expr accepts only string expr".to_string(),
            CheckError::UnboundIdentifier(name) => {
                let mut text = "error: unbound variable: ".to_string();
                text.append(name.as_str());
                text
            },
            CheckError::ReturnTypeMismatch => "type error: not match return type".to_string(),
        }
    }
}

/// The mathematical value of a scope: the bindings from oldest to most
/// recent, and the struct declarations.
pub ghost struct EnvView {
    pub variables: Seq<(Seq<char>, TypeView)>,
    pub structs: Seq<StructView>,
}

impl EnvView {
    /// The scope with one more binding, which shadows older ones of that name.
    pub open spec fn bind(self, name: Seq<char>, t: TypeView) -> EnvView {
        EnvView { variables: self.variables.push((name, t)), structs: self.structs }
    }
}

/// What `name` is associated with in `entries`: the most recent entry of that
/// name wins.
pub open spec fn lookup<V>(entries: Seq<(Seq<char>, V)>, name: Seq<char>) -> Option<V>
    decreases entries.len(),
{
    if entries.len() == 0 {
        None
    } else if entries.last().0 == name {
        Some(entries.last().1)
    } else {
        lookup(entries.drop_last(), name)
    }
}

/// The typing rules: the type of `e` in scope `env`, or the first violation
/// met when the tree is walked depth first, children from left to right.
/// Annotations already in the tree play no part.
pub open spec fn type_of(e: ExprView, env: EnvView) -> Result<TypeView, CheckErrorView>
    decreases e, 0int,
{
    match e {
        ExprView::Let(name, init, body, _) => match type_of(*init, env) {
            Err(err) => Err(err),
            Ok(t) => type_of(*body, env.bind(name, t)),
        },
        ExprView::Sequence(first, second, _) => match type_of(*first, env) {
            Err(err) => Err(err),
            Ok(_) => type_of(*second, env),
        },
        ExprView::If(cond, then, else_ifs, otherwise, _) => match type_of(*cond, env) {
            Err(err) => Err(err),
            Ok(c) => if c != bool_type() {
                Err(CheckErrorView::ConditionNotBoolean)
            } else {
                match type_of(*then, env) {
                    Err(err) => Err(err),
                    Ok(t) => match arms_failure(else_ifs, env, t, else_ifs.len() as int) {
                        Some(err) => Err(err),
                        None => match type_of(*otherwise, env) {
                            Err(err) => Err(err),
                            Ok(f) => if f != t {
                                Err(CheckErrorView::BranchTypeMismatch)
                            } else {
                                Ok(t)
                            },
                        },
                    },
                }
            },
        },
        ExprView::For(variable, from, to, body, _) => match type_of(*from, env) {
            Err(err) => Err(err),
            Ok(a) => match type_of(*to, env) {
                Err(err) => Err(err),
                Ok(b) => if a != b {
                    Err(CheckErrorView::RangeTypeMismatch)
                } else {
                    match type_of(*body, env.bind(variable, a)) {
                        Err(err) => Err(err),
                        Ok(_) => Ok(unit_type()),
                    }
                },
            },
        },
        ExprView::Binary(op, lhs, rhs, _) => match type_of(*lhs, env) {
            Err(err) => Err(err),
            Ok(a) => match type_of(*rhs, env) {
                Err(err) => Err(err),
                Ok(b) => if a != b {
                    Err(CheckErrorView::OperandTypeMismatch)
                } else if op is Equal || op is NotEqual {
                    Ok(bool_type())
                } else {
                    Ok(a)
                },
            },
        },
        ExprView::Apply(callee, args, _) => match type_of(*callee, env) {
            Err(err) => Err(err),
            Ok(TypeView::Function(ret, params)) => match args_types(args, env, args.len() as int) {
                Err(err) => Err(err),
                Ok(given) => if given != params {
                    Err(CheckErrorView::ArityOrArgTypeMismatch)
                } else {
                    Ok(*ret)
                },
            },
            Ok(_) => Err(CheckErrorView::NotAFunction),
        },
        ExprView::Construct(name, inits, _) => match lookup(env.structs, name) {
            None => Err(CheckErrorView::UnknownStruct),
            Some(fields) => match inits_types(inits, env, inits.len() as int) {
                Err(err) => Err(err),
                Ok(given) => if given != fields {
                    Err(CheckErrorView::FieldMismatch)
                } else {
                    Ok(TypeView::Struct(name, fields))
                },
            },
        },
        ExprView::Dot(base, field, _) => match type_of(*base, env) {
            Err(err) => Err(err),
            Ok(TypeView::Struct(_, fields)) => match field_index(fields, field) {
                Some(i) => Ok(fields[i].1),
                None => Err(CheckErrorView::UnknownField),
            },
            Ok(_) => Err(CheckErrorView::NotAStruct),
        },
        ExprView::Assign(target, value, _) => match type_of(*target, env) {
            Err(err) => Err(err),
            Ok(a) => match type_of(*value, env) {
                Err(err) => Err(err),
                Ok(b) => if a != b {
                    Err(CheckErrorView::OperandTypeMismatch)
                } else {
                    Ok(a)
                },
            },
        },
        ExprView::Println(arg, _) => match type_of(*arg, env) {
            Err(err) => Err(err),
            Ok(t) => if t != string_type() {
                Err(CheckErrorView::PrintlnArgumentNotString)
            } else {
                Ok(unit_type())
            },
        },
        ExprView::Number(_, _) => Ok(int_type()),
        ExprView::String(_, _) => Ok(string_type()),
        ExprView::Identifier(name, _) => match lookup(env.variables, name) {
            Some(t) => Ok(t),
            None => Err(CheckErrorView::UnboundIdentifier(name)),
        },
    }
}

/// The first violation in one else-if arm of an `If` whose branches are of
/// type `t`: the condition comes first, then the body.
pub open spec fn arm_failure(arm: (ExprView, ExprView), env: EnvView, t: TypeView) -> Option<CheckErrorView>
    decreases arm, 0int,
{
    match type_of(arm.0, env) {
        Err(err) => Some(err),
        Ok(c) => if c != bool_type() {
            Some(CheckErrorView::ConditionNotBoolean)
        } else {
            match type_of(arm.1, env) {
                Err(err) => Some(err),
                Ok(b) => if b != t {
                    Some(CheckErrorView::BranchTypeMismatch)
                } else {
                    None
                },
            }
        },
    }
}

/// The first violation in the first `n` else-if arms.
pub open spec fn arms_failure(
    arms: Seq<(ExprView, ExprView)>,
    env: EnvView,
    t: TypeView,
    n: int,
) -> Option<CheckErrorView>
    decreases arms, n,
{
    if n <= 0 || n > arms.len() {
        None
    } else {
        match arms_failure(arms, env, t, n - 1) {
            Some(err) => Some(err),
            None => arm_failure(arms[n - 1], env, t),
        }
    }
}

/// The types of the first `n` expressions of `args`, or the first violation
/// in them.
pub open spec fn args_types(args: Seq<ExprView>, env: EnvView, n: int) -> Result<Seq<TypeView>, CheckErrorView>
    decreases args, n,
{
    if n <= 0 || n > args.len() {
        Ok(Seq::empty())
    } else {
        match args_types(args, env, n - 1) {
            Err(err) => Err(err),
            Ok(ts) => match type_of(args[n - 1], env) {
                Err(err) => Err(err),
                Ok(t) => Ok(ts.push(t)),
            },
        }
    }
}

/// The names and types of the first `n` initializers of `inits`, or the first
/// violation in them.
pub open spec fn inits_types(inits: Seq<(Seq<char>, ExprView)>, env: EnvView, n: int) -> Result<
    Seq<(Seq<char>, TypeView)>,
    CheckErrorView,
>
    decreases inits, n,
{
    if n <= 0 || n > inits.len() {
        Ok(Seq::empty())
    } else {
        match inits_types(inits, env, n - 1) {
            Err(err) => Err(err),
            Ok(ts) => match type_of(inits[n - 1].1, env) {
                Err(err) => Err(err),
                Ok(t) => Ok(ts.push((inits[n - 1].0, t))),
            },
        }
    }
}

/// The annotation that checking gives the root of `e`.
pub open spec fn resolved(e: ExprView, env: EnvView) -> Option<TypeView> {
    match type_of(e, env) {
        Ok(t) => Some(t),
        Err(_) => None,
    }
}

/// The scope inside a binder of `name` to the value of `init`.
pub open spec fn inner_env(env: EnvView, name: Seq<char>, init: ExprView) -> EnvView {
    match type_of(init, env) {
        Ok(t) => env.bind(name, t),
        Err(_) => env,
    }
}

/// The tree that a successful check of `e` in `env` leaves behind: the same
/// tree, with every annotation slot holding the type that the typing rules
/// give its node in the scope the node stands in.
pub open spec fn annotate(e: ExprView, env: EnvView) -> ExprView
    decreases e, 0int,
{
    let info = resolved(e, env);
    match e {
        ExprView::Let(name, init, body, _) => ExprView::Let(
            name,
            Box::new(annotate(*init, env)),
            Box::new(annotate(*body, inner_env(env, name, *init))),
            info,
        ),
        ExprView::Sequence(first, second, _) => ExprView::Sequence(
            Box::new(annotate(*first, env)),
            Box::new(annotate(*second, env)),
            info,
        ),
        ExprView::If(cond, then, else_ifs, otherwise, _) => ExprView::If(
            Box::new(annotate(*cond, env)),
            Box::new(annotate(*then, env)),
            annotate_arms(else_ifs, env),
            Box::new(annotate(*otherwise, env)),
            info,
        ),
        ExprView::For(variable, from, to, body, _) => ExprView::For(
            variable,
            Box::new(annotate(*from, env)),
            Box::new(annotate(*to, env)),
            Box::new(annotate(*body, inner_env(env, variable, *from))),
            info,
        ),
        ExprView::Binary(op, lhs, rhs, _) => ExprView::Binary(
            op,
            Box::new(annotate(*lhs, env)),
            Box::new(annotate(*rhs, env)),
            info,
        ),
        ExprView::Apply(callee, args, _) => ExprView::Apply(
            Box::new(annotate(*callee, env)),
            annotate_all(args, env),
            info,
        ),
        ExprView::Construct(name, inits, _) => ExprView::Construct(
            name,
            annotate_inits(inits, env),
            info,
        ),
        ExprView::Dot(base, field, _) => ExprView::Dot(Box::new(annotate(*base, env)), field, info),
        ExprView::Assign(target, value, _) => ExprView::Assign(
            Box::new(annotate(*target, env)),
            Box::new(annotate(*value, env)),
            info,
        ),
        ExprView::Println(arg, _) => ExprView::Println(Box::new(annotate(*arg, env)), info),
        ExprView::Number(n, _) => ExprView::Number(n, info),
        ExprView::String(text, _) => ExprView::String(text, info),
        ExprView::Identifier(name, _) => ExprView::Identifier(name, info),
    }
}

/// [`annotate`] on every expression of a list.
pub open spec fn annotate_all(es: Seq<ExprView>, env: EnvView) -> Seq<ExprView>
    decreases es, 1int,
{
    Seq::new(
        es.len(),
        |i: int|
            if 0 <= i < es.len() {
                annotate(es[i], env)
            } else {
                arbitrary()
            },
    )
}

/// [`annotate`] on the condition and the body of every else-if arm.
pub open spec fn annotate_arms(arms: Seq<(ExprView, ExprView)>, env: EnvView) -> Seq<(ExprView, ExprView)>
    decreases arms, 1int,
{
    Seq::new(
        arms.len(),
        |i: int|
            if 0 <= i < arms.len() {
                (annotate(arms[i].0, env), annotate(arms[i].1, env))
            } else {
                arbitrary()
            },
    )
}

/// [`annotate`] on every field initializer.
pub open spec fn annotate_inits(inits: Seq<(Seq<char>, ExprView)>, env: EnvView) -> Seq<(Seq<char>, ExprView)>
    decreases inits, 1int,
{
    Seq::new(
        inits.len(),
        |i: int|
            if 0 <= i < inits.len() {
                (inits[i].0, annotate(inits[i].1, env))
            } else {
                arbitrary()
            },
    )
}

/// The scope that every function body starts from: each function of the
/// program bound to its signature, in source order, and every struct
/// declaration.
pub open spec fn global_env(p: ProgramView) -> EnvView {
    EnvView {
        variables: Seq::new(
            p.functions.len(),
            |i: int| (p.functions[i].name, p.functions[i].signature()),
        ),
        structs: p.structs,
    }
}

/// The scope in which the body of `f` is checked: the global scope, then the
/// parameters of `f` in order.
pub open spec fn function_env(p: ProgramView, f: FunctionView) -> EnvView {
    EnvView { variables: global_env(p).variables + f.args, structs: p.structs }
}

/// The first violation in function `f` of program `p`: one in its body, or a
/// body that is not of the declared return type.
pub open spec fn function_failure(p: ProgramView, f: FunctionView) -> Option<CheckErrorView> {
    match type_of(f.body, function_env(p, f)) {
        Err(err) => Some(err),
        Ok(t) => if t != f.return_type {
            Some(CheckErrorView::ReturnTypeMismatch)
        } else {
            None
        },
    }
}

/// The first violation in the first `n` functions of `p`.
pub open spec fn functions_failure(p: ProgramView, n: int) -> Option<CheckErrorView>
    decreases n,
{
    if n <= 0 || n > p.functions.len() {
        None
    } else {
        match functions_failure(p, n - 1) {
            Some(err) => Some(err),
            None => function_failure(p, p.functions[n - 1]),
        }
    }
}

/// The first violation in program `p`, if there is one.
pub open spec fn check_failure(p: ProgramView) -> Option<CheckErrorView> {
    functions_failure(p, p.functions.len() as int)
}

/// Function `f` of program `p` with its body annotated.
pub open spec fn annotate_function(p: ProgramView, f: FunctionView) -> FunctionView {
    FunctionView {
        name: f.name,
        args: f.args,
        return_type: f.return_type,
        body: annotate(f.body, function_env(p, f)),
    }
}

/// Program `p` with every function body annotated.
pub open spec fn annotate_program(p: ProgramView) -> ProgramView {
    ProgramView {
        functions: Seq::new(p.functions.len(), |i: int| annotate_function(p, p.functions[i])),
        structs: p.structs,
    }
}

/// A scope: the variable bindings, most recent last, and the declared structs.
#[derive(Debug)]
pub struct Env {
    pub variables: Vec<(String, Type)>,
    pub structs: Vec<(String, Vec<(String, Type)>)>,
}

impl View for Env {
    type V = EnvView;

    open spec fn view(&self) -> EnvView {
        EnvView { variables: fields_view(self.variables@), structs: structs_view(self.structs@) }
    }
}

impl Env {
    /// The empty scope.
    pub fn new() -> (env: Self)
        ensures
            env@.variables.len() == 0,
            env@.structs.len() == 0,
    {
        Env { variables: Vec::new(), structs: Vec::new() }
    }

    /// Binds `name` to `ty`, shadowing any older binding of that name.
    pub fn add_variable(&mut self, name: String, ty: Type)
        ensures
            final(self)@ == old(self)@.bind(name@, ty@),
    {
        self.variables.push((name, ty));
        assert(fields_view(self.variables@) =~= fields_view(old(self).variables@).push(
            (name@, ty@),
        ));
    }

    /// Binds every name of `args` in order, the last one most recent.
    pub fn append_variable(&mut self, args: Vec<(String, Type)>)
        ensures
            final(self)@.variables == old(self)@.variables + fields_view(args@),
            final(self)@.structs == old(self)@.structs,
    {
        let mut rest = args;
        self.variables.append(&mut rest);
        assert(fields_view(self.variables@) =~= fields_view(old(self).variables@) + fields_view(
            args@,
        ));
    }

    /// Declares the struct `name` with the given fields; a declaration
    /// replaces, for lookup, any older one of the same name.
    pub fn add_struct(&mut self, name: String, fields: Vec<(String, Type)>)
        ensures
            final(self)@.variables == old(self)@.variables,
            final(self)@.structs == old(self)@.structs.push((name@, fields_view(fields@))),
    {
        self.structs.push((name, fields));
        assert(structs_view(self.structs@) =~= structs_view(old(self).structs@).push(
            (name@, fields_view(fields@)),
        ));
    }

    /// The type that `name` is bound to, if any: the most recent binding.
    pub fn lookup_var(&self, name: &String) -> (found: Option<Type>)
        ensures
            found is Some == lookup(self@.variables, name@) is Some,
            found matches Some(t) ==> lookup(self@.variables, name@) == Some(t@),
    {
        let ghost all = self@.variables;
        let mut i: usize = self.variables.len();
        assert(all.take(i as int) =~= all);
        while i > 0
            invariant
                i <= self.variables.len(),
                all == fields_view(self.variables@),
                lookup(all, name@) == lookup(all.take(i as int), name@),
            decreases i,
        {
            i -= 1;
            assert(all.take(i + 1).drop_last() =~= all.take(i as int));
            if str_eq(self.variables[i].0.as_str(), name.as_str()) {
                return Some(self.variables[i].1.clone());
            }
        }
        None
    }

    /// The declared fields of the struct `name`, if it is declared.
    pub fn lookup_struct(&self, name: &String) -> (found: Option<Vec<(String, Type)>>)
        ensures
            found is Some == lookup(self@.structs, name@) is Some,
            found matches Some(fields) ==> lookup(self@.structs, name@) == Some(fields_view(fields@)),
    {
        let ghost all = self@.structs;
        let mut i: usize = self.structs.len();
        assert(all.take(i as int) =~= all);
        while i > 0
            invariant
                i <= self.structs.len(),
                all == structs_view(self.structs@),
                lookup(all, name@) == lookup(all.take(i as int), name@),
            decreases i,
        {
            i -= 1;
            assert(all.take(i + 1).drop_last() =~= all.take(i as int));
            if str_eq(self.structs[i].0.as_str(), name.as_str()) {
                return Some(Type::clone_fields(&self.structs[i].1));
            }
        }
        None
    }
}

impl Clone for Env {
    fn clone(&self) -> (copy: Self)
        ensures
            copy@ == self@,
    {
        let mut structs: Vec<(String, Vec<(String, Type)>)> = Vec::new();
        let mut k: usize = 0;
        while k < self.structs.len()
            invariant
                k <= self.structs.len(),
                structs.len() == k,
                forall|j: int|
                    0 <= j < k ==> structs@[j].0@ == self.structs@[j].0@ && fields_view(
                        structs@[j].1@,
                    ) == fields_view(self.structs@[j].1@),
            decreases self.structs.len() - k,
        {
            structs.push((self.structs[k].0.clone(), Type::clone_fields(&self.structs[k].1)));
            k += 1;
        }
        assert(structs_view(structs@) =~= structs_view(self.structs@));
        Env { variables: Type::clone_fields(&self.variables), structs }
    }
}

/// Once one of the first `n` else-if arms fails, looking at more arms does not
/// change the failure.
pub proof fn lemma_arms_failure_persists(
    arms: Seq<(ExprView, ExprView)>,
    env: EnvView,
    t: TypeView,
    n: int,
    m: int,
)
    requires
        0 <= n <= m <= arms.len(),
        arms_failure(arms, env, t, n) is Some,
    ensures
        arms_failure(arms, env, t, m) == arms_failure(arms, env, t, n),
    decreases m - n,
{
    if n < m {
        lemma_arms_failure_persists(arms, env, t, n, m - 1);
    }
}

/// Once one of the first `n` arguments fails, looking at more arguments does
/// not change the failure.
pub proof fn lemma_args_failure_persists(args: Seq<ExprView>, env: EnvView, n: int, m: int)
    requires
        0 <= n <= m <= args.len(),
        args_types(args, env, n) is Err,
    ensures
        args_types(args, env, m) == args_types(args, env, n),
    decreases m - n,
{
    if n < m {
        lemma_args_failure_persists(args, env, n, m - 1);
    }
}

/// Once one of the first `n` initializers fails, looking at more initializers
/// does not change the failure.
pub proof fn lemma_inits_failure_persists(
    inits: Seq<(Seq<char>, ExprView)>,
    env: EnvView,
    n: int,
    m: int,
)
    requires
        0 <= n <= m <= inits.len(),
        inits_types(inits, env, n) is Err,
    ensures
        inits_types(inits, env, m) == inits_types(inits, env, n),
    decreases m - n,
{
    if n < m {
        lemma_inits_failure_persists(inits, env, n, m - 1);
    }
}

/// Once one of the first `n` functions fails, looking at more functions does
/// not change the failure.
pub proof fn lemma_functions_failure_persists(p: ProgramView, n: int, m: int)
    requires
        0 <= n <= m <= p.functions.len(),
        functions_failure(p, n) is Some,
    ensures
        functions_failure(p, m) == functions_failure(p, n),
    decreases m - n,
{
    if n < m {
        lemma_functions_failure_persists(p, n, m - 1);
    }
}

/// Where the first `n` arguments check, each of them checks.
pub proof fn lemma_args_each_checked(args: Seq<ExprView>, env: EnvView, n: int)
    requires
        0 <= n <= args.len(),
        args_types(args, env, n) is Ok,
    ensures
        forall|j: int| 0 <= j < n ==> (#[trigger] type_of(args[j], env)) is Ok,
    decreases n,
{
    if n > 0 {
        lemma_args_each_checked(args, env, n - 1);
    }
}

/// Where the first `n` initializers check, each of them checks.
pub proof fn lemma_inits_each_checked(inits: Seq<(Seq<char>, ExprView)>, env: EnvView, n: int)
    requires
        0 <= n <= inits.len(),
        inits_types(inits, env, n) is Ok,
    ensures
        forall|j: int| 0 <= j < n ==> (#[trigger] type_of(inits[j].1, env)) is Ok,
    decreases n,
{
    if n > 0 {
        lemma_inits_each_checked(inits, env, n - 1);
    }
}

/// Where the first `n` else-if arms check, each of them checks.
pub proof fn lemma_arms_each_checked(
    arms: Seq<(ExprView, ExprView)>,
    env: EnvView,
    t: TypeView,
    n: int,
)
    requires
        0 <= n <= arms.len(),
        arms_failure(arms, env, t, n) is None,
    ensures
        forall|j: int| 0 <= j < n ==> (#[trigger] arm_failure(arms[j], env, t)) is None,
    decreases n,
{
    if n > 0 {
        lemma_arms_each_checked(arms, env, t, n - 1);
    }
}

/// Totality on success: where the typing rules give `e` a type, the
/// annotated tree has an annotation on every node.
pub proof fn lemma_checked_tree_is_annotated(e: ExprView, env: EnvView)
    requires
        type_of(e, env) is Ok,
    ensures
        fully_annotated(annotate(e, env)),
    decreases e,
{
    match e {
        ExprView::Let(name, init, body, _) => {
            lemma_checked_tree_is_annotated(*init, env);
            lemma_checked_tree_is_annotated(*body, inner_env(env, name, *init));
        },
        ExprView::Sequence(first, second, _) => {
            lemma_checked_tree_is_annotated(*first, env);
            lemma_checked_tree_is_annotated(*second, env);
        },
        ExprView::If(cond, then, else_ifs, otherwise, _) => {
            lemma_checked_tree_is_annotated(*cond, env);
            lemma_checked_tree_is_annotated(*then, env);
            lemma_checked_tree_is_annotated(*otherwise, env);
            let t = type_of(*then, env)->Ok_0;
            lemma_arms_each_checked(else_ifs, env, t, else_ifs.len() as int);
            let after = annotate_arms(else_ifs, env);
            assert forall|i: int| 0 <= i < after.len() implies fully_annotated(
                #[trigger] after[i].0,
            ) && fully_annotated(after[i].1) by {
                assert(arm_failure(else_ifs[i], env, t) is None);
                lemma_checked_tree_is_annotated(else_ifs[i].0, env);
                lemma_checked_tree_is_annotated(else_ifs[i].1, env);
            }
        },
        ExprView::For(variable, from, to, body, _) => {
            lemma_checked_tree_is_annotated(*from, env);
            lemma_checked_tree_is_annotated(*to, env);
            lemma_checked_tree_is_annotated(*body, inner_env(env, variable, *from));
        },
        ExprView::Binary(_, left, right, _) => {
            lemma_checked_tree_is_annotated(*left, env);
            lemma_checked_tree_is_annotated(*right, env);
        },
        ExprView::Apply(callee, args, _) => {
            lemma_checked_tree_is_annotated(*callee, env);
            lemma_args_each_checked(args, env, args.len() as int);
            let after = annotate_all(args, env);
            assert forall|i: int| 0 <= i < after.len() implies fully_annotated(
                #[trigger] after[i],
            ) by {
                assert(type_of(args[i], env) is Ok);
                lemma_checked_tree_is_annotated(args[i], env);
            }
        },
        ExprView::Construct(_, inits, _) => {
            lemma_inits_each_checked(inits, env, inits.len() as int);
            let after = annotate_inits(inits, env);
            assert forall|i: int| 0 <= i < after.len() implies fully_annotated(
                #[trigger] after[i].1,
            ) by {
                assert(type_of(inits[i].1, env) is Ok);
                lemma_checked_tree_is_annotated(inits[i].1, env);
            }
        },
        ExprView::Dot(base, _, _) => {
            lemma_checked_tree_is_annotated(*base, env);
        },
        ExprView::Assign(target, value, _) => {
            lemma_checked_tree_is_annotated(*target, env);
            lemma_checked_tree_is_annotated(*value, env);
        },
        ExprView::Println(arg, _) => {
            lemma_checked_tree_is_annotated(*arg, env);
        },
        ExprView::Number(_, _) => {},
        ExprView::String(_, _) => {},
        ExprView::Identifier(_, _) => {},
    }
}

/// Where the first `n` functions check, each of them checks.
pub proof fn lemma_functions_each_checked(p: ProgramView, n: int)
    requires
        0 <= n <= p.functions.len(),
        functions_failure(p, n) is None,
    ensures
        forall|j: int| 0 <= j < n ==> (#[trigger] function_failure(p, p.functions[j])) is None,
    decreases n,
{
    if n > 0 {
        lemma_functions_each_checked(p, n - 1);
    }
}

/// Totality on success, for whole programs: where a program checks, every
/// node of every function body of the annotated program has an annotation.
pub proof fn lemma_checked_program_is_annotated(p: ProgramView)
    requires
        check_failure(p) is None,
    ensures
        forall|i: int|
            0 <= i < p.functions.len() ==> fully_annotated(
                (#[trigger] annotate_program(p).functions[i]).body,
            ),
{
    lemma_functions_each_checked(p, p.functions.len() as int);
    assert forall|i: int| 0 <= i < p.functions.len() implies fully_annotated(
        (#[trigger] annotate_program(p).functions[i]).body,
    ) by {
        assert(function_failure(p, p.functions[i]) is None);
        lemma_checked_tree_is_annotated(p.functions[i].body, function_env(p, p.functions[i]));
    }
}

/// Checks a whole program. Every function is bound to its signature and
/// every struct declared before any body is checked; the functions are then
/// checked in source order, each body in the global scope extended by the
/// function's own parameters, and each body must be of the declared return
/// type. On success every annotation slot of the program holds the type of
/// its node; otherwise the first violation is returned and the annotations
/// are unspecified. Nothing but annotations is ever changed.
pub fn type_check(program: &mut Program) -> (r: Result<(), CheckError>)
    ensures
        erase_program(final(program)@) == erase_program(old(program)@),
        r is Ok <==> check_failure(old(program)@) is None,
        r matches Err(err) ==> check_failure(old(program)@) == Some(err@),
        r is Ok ==> final(program)@ == annotate_program(old(program)@),
        r is Ok ==> forall|i: int|
            0 <= i < final(program)@.functions.len() ==> fully_annotated(
                (#[trigger] final(program)@.functions[i]).body,
            ),
{
    let ghost before = program@;
    let mut env = Env::new();
    let mut i: usize = 0;
    while i < program.functions.len()
        invariant
            i <= program.functions.len(),
            *program == *old(program),
            before == program@,
            env@.variables == global_env(before).variables.take(i as int),
            env@.structs.len() == 0,
        decreases program.functions.len() - i,
    {
        let ghost seen = env@.variables;
        let func = &program.functions[i];
        env.add_variable(func.name.clone(), func.type_());
        assert(global_env(before).variables.take(i + 1) =~= seen.push(
            (before.functions[i as int].name, before.functions[i as int].signature()),
        ));
        i += 1;
    }
    assert(global_env(before).variables.take(i as int) =~= global_env(before).variables);
    let mut k: usize = 0;
    assert(env@.structs =~= before.structs.take(0));
    while k < program.structs.len()
        invariant
            k <= program.structs.len(),
            *program == *old(program),
            before == program@,
            env@.variables == global_env(before).variables,
            env@.structs == before.structs.take(k as int),
        decreases program.structs.len() - k,
    {
        let ghost seen = env@.structs;
        env.add_struct(program.structs[k].0.clone(), Type::clone_fields(&program.structs[k].1));
        assert(before.structs.take(k + 1) =~= seen.push(before.structs[k as int]));
        k += 1;
    }
    assert(before.structs.take(k as int) =~= before.structs);
    assert(env@ == global_env(before));
    let mut n: usize = 0;
    while n < program.functions.len()
        invariant
            n <= program.functions.len(),
            program.functions.len() == before.functions.len(),
            before == old(program)@,
            env@ == global_env(before),
            program@.structs == before.structs,
            functions_failure(before, n as int) is None,
            forall|j: int|
                0 <= j < n ==> (#[trigger] program.functions@[j])@ == annotate_function(
                    before,
                    before.functions[j],
                ),
            forall|j: int|
                n <= j < program.functions.len() ==> (#[trigger] program.functions@[j])@
                    == before.functions[j],
            forall|j: int|
                0 <= j < program.functions.len() ==> {
                    let now = (#[trigger] program.functions@[j])@;
                    let then = before.functions[j];
                    now.name == then.name && now.args == then.args && now.return_type
                        == then.return_type && erase(now.body) == erase(then.body)
                },
        decreases program.functions.len() - n,
    {
        let mut scope = env.clone();
        scope.append_variable(Type::clone_fields(&program.functions[n].args));
        let func = &mut program.functions[n];
        match check_function(func, &scope) {
            Err(err) => {
                proof {
                    lemma_functions_failure_persists(
                        before,
                        n + 1,
                        before.functions.len() as int,
                    );
                    assert(erase_program(program@).functions =~= erase_program(
                        before,
                    ).functions);
                }
                return Err(err);
            },
            Ok(_) => {},
        }
        n += 1;
    }
    proof {
        assert(program@.functions =~= annotate_program(before).functions);
        assert(erase_program(program@).functions =~= erase_program(before).functions);
        lemma_checked_program_is_annotated(before);
    }
    Ok(())
}

/// Checks the body of one function in `scope`, which already holds the
/// function's parameters, and compares its type with the declared return type.
pub fn check_function(func: &mut Function, scope: &Env) -> (r: Result<(), CheckError>)
    ensures
        final(func).name == old(func).name,
        final(func).args == old(func).args,
        final(func).return_type == old(func).return_type,
        erase(final(func).body@) == erase(old(func).body@),
        match r {
            Ok(_) => type_of(old(func).body@, scope@) == Ok::<TypeView, CheckErrorView>(
                old(func).return_type@,
            ) && final(func).body@ == annotate(old(func).body@, scope@),
            Err(err) => match type_of(old(func).body@, scope@) {
                Err(e) => err@ == e,
                Ok(t) => t != old(func).return_type@ && err@ == CheckErrorView::ReturnTypeMismatch,
            },
        },
{
    let ty = type_check_impl(&mut func.body, scope)?;
    if !ty.same(&func.return_type) {
        return Err(CheckError::ReturnTypeMismatch);
    }
    Ok(())
}

/// What a check of a tree promises: on success the type that the typing rules
/// give `before`, with `after` the annotated tree; otherwise the first
/// violation in `before`. Either way `after` is `before` but for annotations.
pub open spec fn checked(
    before: ExprView,
    after: ExprView,
    env: EnvView,
    r: Result<Type, CheckError>,
) -> bool {
    &&& erase(after) == erase(before)
    &&& match r {
        Ok(t) => type_of(before, env) == Ok::<TypeView, CheckErrorView>(t@) && after == annotate(
            before,
            env,
        ),
        Err(err) => type_of(before, env) == Err::<TypeView, CheckErrorView>(err@),
    }
}

/// Checks `expr` in scope `env`. On success every annotation slot in the tree
/// holds the type of its node and the type of `expr` is returned; otherwise
/// the first violation is returned and the annotations are unspecified. The
/// tree itself is never changed.
pub fn type_check_impl(expr: &mut Expr, env: &Env) -> (r: Result<Type, CheckError>)
    ensures
        erase(final(expr)@) == erase(old(expr)@),
        r matches Ok(t) ==> type_of(old(expr)@, env@) == Ok::<TypeView, CheckErrorView>(t@)
            && final(expr)@ == annotate(old(expr)@, env@),
        r matches Err(err) ==> type_of(old(expr)@, env@) == Err::<TypeView, CheckErrorView>(err@),
    decreases *old(expr), 1int,
{
    let ghost whole = *expr;
    match expr {
        Expr::Let(name, init, body, info) => check_let(name, init, body, info, env),
        Expr::Sequence(first, second, info) => check_sequence(first, second, info, env),
        Expr::If(cond, then, else_ifs, otherwise, info) => check_if(
            cond,
            then,
            else_ifs,
            otherwise,
            info,
            env,
        ),
        Expr::For(variable, from, to, body, info) => check_for(variable, from, to, body, info, env),
        Expr::Equal(left, right, info) => {
            proof {
                assert(decreases_to!(whole => whole->Equal_0));
                assert(decreases_to!(whole => whole->Equal_1));
            }
            check_operator(left, right, info, env, true, Ghost(Operator::Equal), Ghost(whole))
        },
        Expr::NotEqual(left, right, info) => {
            proof {
                assert(decreases_to!(whole => whole->NotEqual_0));
                assert(decreases_to!(whole => whole->NotEqual_1));
            }
            check_operator(left, right, info, env, true, Ghost(Operator::NotEqual), Ghost(whole))
        },
        Expr::Add(left, right, info) => {
            proof {
                assert(decreases_to!(whole => whole->Add_0));
                assert(decreases_to!(whole => whole->Add_1));
            }
            check_operator(left, right, info, env, false, Ghost(Operator::Add), Ghost(whole))
        },
        Expr::Sub(left, right, info) => {
            proof {
                assert(decreases_to!(whole => whole->Sub_0));
                assert(decreases_to!(whole => whole->Sub_1));
            }
            check_operator(left, right, info, env, false, Ghost(Operator::Sub), Ghost(whole))
        },
        Expr::Surplus(left, right, info) => {
            proof {
                assert(decreases_to!(whole => whole->Surplus_0));
                assert(decreases_to!(whole => whole->Surplus_1));
            }
            check_operator(left, right, info, env, false, Ghost(Operator::Surplus), Ghost(whole))
        },
        Expr::Mult(left, right, info) => {
            proof {
                assert(decreases_to!(whole => whole->Mult_0));
                assert(decreases_to!(whole => whole->Mult_1));
            }
            check_operator(left, right, info, env, false, Ghost(Operator::Mult), Ghost(whole))
        },
        Expr::Div(left, right, info) => {
            proof {
                assert(decreases_to!(whole => whole->Div_0));
                assert(decreases_to!(whole => whole->Div_1));
            }
            check_operator(left, right, info, env, false, Ghost(Operator::Div), Ghost(whole))
        },
        Expr::Apply(callee, args, info) => check_apply(callee, args, info, env),
        Expr::Construct(name, inits, info) => check_construct(name, inits, info, env),
        Expr::Dot(base, field, info) => check_dot(base, field, info, env),
        Expr::Assign(target, value, info) => check_assign(target, value, info, env),
        Expr::Println(arg, info) => check_println(arg, info, env),
        Expr::Number(_, info) => {
            info.type_ = Some(Type::integer());
            Ok(Type::integer())
        },
        Expr::String(_, info) => {
            info.type_ = Some(Type::string());
            Ok(Type::string())
        },
        Expr::Identifier(name, info) => {
            match env.lookup_var(name) {
                Some(ty) => {
                    info.type_ = Some(ty.clone());
                    Ok(ty)
                },
                None => Err(CheckError::UnboundIdentifier(name.clone())),
            }
        },
    }
}

/// Checks a `Let`: the initializer in `env`, then the body in `env` with
/// `name` bound to the initializer's type.
fn check_let(name: &String, init: &mut Expr, body: &mut Expr, info: &mut Info, env: &Env) -> (r:
    Result<Type, CheckError>)
    ensures
        checked(
            ExprView::Let(name@, Box::new(old(init)@), Box::new(old(body)@), info_view(*old(info))),
            ExprView::Let(
                name@,
                Box::new(final(init)@),
                Box::new(final(body)@),
                info_view(*final(info)),
            ),
            env@,
            r,
        ),
    decreases Expr::Let(*name, Box::new(*old(init)), Box::new(*old(body)), *old(info)), 0int,
{
    proof {
        let whole = Expr::Let(*name, Box::new(*init), Box::new(*body), *info);
        assert(decreases_to!(whole => whole->Let_1));
        assert(decreases_to!(whole => whole->Let_2));
    }
    let bound = type_check_impl(init, env)?;
    let mut inner = env.clone();
    inner.add_variable(name.clone(), bound);
    let ty = type_check_impl(body, &inner)?;
    info.type_ = Some(ty.clone());
    Ok(ty)
}

/// Checks a `Sequence`: both parts, in order; its type is that of the second.
fn check_sequence(first: &mut Expr, second: &mut Expr, info: &mut Info, env: &Env) -> (r: Result<
    Type,
    CheckError,
>)
    ensures
        checked(
            ExprView::Sequence(Box::new(old(first)@), Box::new(old(second)@), info_view(*old(info))),
            ExprView::Sequence(
                Box::new(final(first)@),
                Box::new(final(second)@),
                info_view(*final(info)),
            ),
            env@,
            r,
        ),
    decreases Expr::Sequence(Box::new(*old(first)), Box::new(*old(second)), *old(info)), 0int,
{
    proof {
        let whole = Expr::Sequence(Box::new(*first), Box::new(*second), *info);
        assert(decreases_to!(whole => whole->Sequence_0));
        assert(decreases_to!(whole => whole->Sequence_1));
    }
    type_check_impl(first, env)?;
    let ty = type_check_impl(second, env)?;
    info.type_ = Some(ty.clone());
    Ok(ty)
}

/// Checks an `If`: every condition must be `Bool` and all branches must have
/// one type, which is the type of the `If`.
fn check_if(
    cond: &mut Expr,
    then: &mut Expr,
    else_ifs: &mut Vec<(Expr, Expr)>,
    otherwise: &mut Expr,
    info: &mut Info,
    env: &Env,
) -> (r: Result<Type, CheckError>)
    ensures
        checked(
            ExprView::If(
                Box::new(old(cond)@),
                Box::new(old(then)@),
                arms_view(old(else_ifs)@),
                Box::new(old(otherwise)@),
                info_view(*old(info)),
            ),
            ExprView::If(
                Box::new(final(cond)@),
                Box::new(final(then)@),
                arms_view(final(else_ifs)@),
                Box::new(final(otherwise)@),
                info_view(*final(info)),
            ),
            env@,
            r,
        ),
    decreases
            Expr::If(
                Box::new(*old(cond)),
                Box::new(*old(then)),
                *old(else_ifs),
                Box::new(*old(otherwise)),
                *old(info),
            ),
            0int,
{
    proof {
        let whole = Expr::If(
            Box::new(*cond),
            Box::new(*then),
            *else_ifs,
            Box::new(*otherwise),
            *info,
        );
        assert(decreases_to!(whole => whole->If_0));
        assert(decreases_to!(whole => whole->If_1));
        assert(decreases_to!(whole => whole->If_2));
        assert(decreases_to!(whole => whole->If_3));
    }
    let c = type_check_impl(cond, env)?;
    if !c.same(&Type::boolean()) {
        return Err(CheckError::ConditionNotBoolean);
    }
    let ty = type_check_impl(then, env)?;
    check_arms(else_ifs, env, &ty)?;
    let last = type_check_impl(otherwise, env)?;
    if !last.same(&ty) {
        return Err(CheckError::BranchTypeMismatch);
    }
    info.type_ = Some(ty.clone());
    Ok(ty)
}

/// Checks a `For`: the two bounds must have one type, to which the loop
/// variable is bound in the body; the loop itself is of type `Unit`.
fn check_for(
    variable: &String,
    from: &mut Expr,
    to: &mut Expr,
    body: &mut Expr,
    info: &mut Info,
    env: &Env,
) -> (r: Result<Type, CheckError>)
    ensures
        checked(
            ExprView::For(
                variable@,
                Box::new(old(from)@),
                Box::new(old(to)@),
                Box::new(old(body)@),
                info_view(*old(info)),
            ),
            ExprView::For(
                variable@,
                Box::new(final(from)@),
                Box::new(final(to)@),
                Box::new(final(body)@),
                info_view(*final(info)),
            ),
            env@,
            r,
        ),
    decreases
            Expr::For(
                *variable,
                Box::new(*old(from)),
                Box::new(*old(to)),
                Box::new(*old(body)),
                *old(info),
            ),
            0int,
{
    proof {
        let whole = Expr::For(*variable, Box::new(*from), Box::new(*to), Box::new(*body), *info);
        assert(decreases_to!(whole => whole->For_1));
        assert(decreases_to!(whole => whole->For_2));
        assert(decreases_to!(whole => whole->For_3));
    }
    let low = type_check_impl(from, env)?;
    let high = type_check_impl(to, env)?;
    if !low.same(&high) {
        return Err(CheckError::RangeTypeMismatch);
    }
    let mut inner = env.clone();
    inner.add_variable(variable.clone(), low);
    type_check_impl(body, &inner)?;
    info.type_ = Some(Type::unit());
    Ok(Type::unit())
}

/// Checks a binary operator node standing at `whole`: both operands must have
/// one type; a comparison is `Bool`, any other operator has the operands' type.
fn check_operator(
    left: &mut Expr,
    right: &mut Expr,
    info: &mut Info,
    env: &Env,
    comparing: bool,
    Ghost(op): Ghost<Operator>,
    Ghost(whole): Ghost<Expr>,
) -> (r: Result<Type, CheckError>)
    requires
        comparing == (op is Equal || op is NotEqual),
        decreases_to!(whole => *old(left)),
        decreases_to!(whole => *old(right)),
    ensures
        checked(
            ExprView::Binary(op, Box::new(old(left)@), Box::new(old(right)@), info_view(*old(info))),
            ExprView::Binary(
                op,
                Box::new(final(left)@),
                Box::new(final(right)@),
                info_view(*final(info)),
            ),
            env@,
            r,
        ),
    decreases whole, 0int,
{
    let a = type_check_impl(left, env)?;
    let b = type_check_impl(right, env)?;
    if !a.same(&b) {
        return Err(CheckError::OperandTypeMismatch);
    }
    let ty = if comparing {
        Type::boolean()
    } else {
        a
    };
    info.type_ = Some(ty.clone());
    Ok(ty)
}

/// Checks an `Apply`: the callee must be of a function type whose parameter
/// types are exactly the argument types; the call has the return type.
fn check_apply(callee: &mut Expr, args: &mut Vec<Expr>, info: &mut Info, env: &Env) -> (r: Result<
    Type,
    CheckError,
>)
    ensures
        checked(
            ExprView::Apply(Box::new(old(callee)@), exprs_view(old(args)@), info_view(*old(info))),
            ExprView::Apply(
                Box::new(final(callee)@),
                exprs_view(final(args)@),
                info_view(*final(info)),
            ),
            env@,
            r,
        ),
    decreases Expr::Apply(Box::new(*old(callee)), *old(args), *old(info)), 0int,
{
    proof {
        let whole = Expr::Apply(Box::new(*callee), *args, *info);
        assert(decreases_to!(whole => whole->Apply_0));
        assert(decreases_to!(whole => whole->Apply_1));
    }
    match type_check_impl(callee, env)? {
        Type::Function(ret, params) => {
            let given = check_args(args, env)?;
            if !Type::same_list(&given, &params) {
                return Err(CheckError::ArityOrArgTypeMismatch);
            }
            let ty = *ret;
            info.type_ = Some(ty.clone());
            Ok(ty)
        },
        _ => Err(CheckError::NotAFunction),
    }
}

/// Checks a `Construct`: the struct must be declared, and the initializers
/// must give exactly the declared fields, by name and type, in order.
fn check_construct(name: &String, inits: &mut Vec<(String, Expr)>, info: &mut Info, env: &Env) -> (r:
    Result<Type, CheckError>)
    ensures
        checked(
            ExprView::Construct(name@, inits_view(old(inits)@), info_view(*old(info))),
            ExprView::Construct(name@, inits_view(final(inits)@), info_view(*final(info))),
            env@,
            r,
        ),
    decreases Expr::Construct(*name, *old(inits), *old(info)), 0int,
{
    proof {
        let whole = Expr::Construct(*name, *inits, *info);
        assert(decreases_to!(whole => whole->Construct_1));
    }
    match env.lookup_struct(name) {
        None => Err(CheckError::UnknownStruct),
        Some(fields) => {
            let given = check_inits(inits, env)?;
            if !Type::same_fields(&given, &fields) {
                return Err(CheckError::FieldMismatch);
            }
            let ty = Type::Struct(name.clone(), fields);
            info.type_ = Some(ty.clone());
            Ok(ty)
        },
    }
}

/// Checks a `Dot`: the base must be of a struct type that has the field; the
/// access has the field's declared type.
fn check_dot(base: &mut Expr, field: &String, info: &mut Info, env: &Env) -> (r: Result<
    Type,
    CheckError,
>)
    ensures
        checked(
            ExprView::Dot(Box::new(old(base)@), field@, info_view(*old(info))),
            ExprView::Dot(Box::new(final(base)@), field@, info_view(*final(info))),
            env@,
            r,
        ),
    decreases Expr::Dot(Box::new(*old(base)), *field, *old(info)), 0int,
{
    proof {
        let whole = Expr::Dot(Box::new(*base), *field, *info);
        assert(decreases_to!(whole => whole->Dot_0));
    }
    match type_check_impl(base, env)? {
        Type::Struct(_, fields) => match Type::field_position(&fields, field.as_str()) {
            Some(i) => {
                let ty = fields[i].1.clone();
                info.type_ = Some(ty.clone());
                Ok(ty)
            },
            None => Err(CheckError::UnknownField),
        },
        _ => Err(CheckError::NotAStruct),
    }
}

/// Checks an `Assign`: both sides must have one type, which is the type of
/// the assignment.
fn check_assign(target: &mut Expr, value: &mut Expr, info: &mut Info, env: &Env) -> (r: Result<
    Type,
    CheckError,
>)
    ensures
        checked(
            ExprView::Assign(Box::new(old(target)@), Box::new(old(value)@), info_view(*old(info))),
            ExprView::Assign(
                Box::new(final(target)@),
                Box::new(final(value)@),
                info_view(*final(info)),
            ),
            env@,
            r,
        ),
    decreases Expr::Assign(Box::new(*old(target)), Box::new(*old(value)), *old(info)), 0int,
{
    proof {
        let whole = Expr::Assign(Box::new(*target), Box::new(*value), *info);
        assert(decreases_to!(whole => whole->Assign_0));
        assert(decreases_to!(whole => whole->Assign_1));
    }
    let a = type_check_impl(target, env)?;
    let b = type_check_impl(value, env)?;
    if !a.same(&b) {
        return Err(CheckError::OperandTypeMismatch);
    }
    info.type_ = Some(a.clone());
    Ok(a)
}

/// Checks a `Println`: the argument must be a `String`; the node is `Unit`.
fn check_println(arg: &mut Expr, info: &mut Info, env: &Env) -> (r: Result<Type, CheckError>)
    ensures
        checked(
            ExprView::Println(Box::new(old(arg)@), info_view(*old(info))),
            ExprView::Println(Box::new(final(arg)@), info_view(*final(info))),
            env@,
            r,
        ),
    decreases Expr::Println(Box::new(*old(arg)), *old(info)), 0int,
{
    proof {
        let whole = Expr::Println(Box::new(*arg), *info);
        assert(decreases_to!(whole => whole->Println_0));
    }
    let a = type_check_impl(arg, env)?;
    if !a.same(&Type::string()) {
        return Err(CheckError::PrintlnArgumentNotString);
    }
    info.type_ = Some(Type::unit());
    Ok(Type::unit())
}

/// Checks the else-if arms of an `If` whose branches are of type `ty`, in
/// order: each condition must be `Bool` and each body of type `ty`.
pub fn check_arms(arms: &mut Vec<(Expr, Expr)>, env: &Env, ty: &Type) -> (r: Result<(), CheckError>)
    ensures
        erase_arms(arms_view(final(arms)@)) == erase_arms(arms_view(old(arms)@)),
        r is Ok ==> arms_failure(arms_view(old(arms)@), env@, ty@, old(arms)@.len() as int) is None
            && arms_view(final(arms)@) == annotate_arms(arms_view(old(arms)@), env@),
        r matches Err(err) ==> arms_failure(
            arms_view(old(arms)@),
            env@,
            ty@,
            old(arms)@.len() as int,
        ) == Some(err@),
    decreases *old(arms),
{
    let ghost before = arms_view(arms@);
    let mut i: usize = 0;
    while i < arms.len()
        invariant
            i <= arms.len(),
            arms.len() == old(arms).len(),
            before == arms_view(old(arms)@),
            arms_failure(before, env@, ty@, i as int) is None,
            forall|j: int| 0 <= j < i ==> arms_view(arms@)[j] == annotate_arms(before, env@)[j],
            forall|j: int|
                0 <= j < i ==> erase_arms(arms_view(arms@))[j] == erase_arms(before)[j],
            forall|j: int| i <= j < arms.len() ==> arms@[j] == old(arms)@[j],
        decreases arms.len() - i,
    {
        let arm = &mut arms[i];
        let outcome = check_arm(arm, env, ty);
        match outcome {
            Err(err) => {
                proof {
                    lemma_arms_failure_persists(before, env@, ty@, i + 1, before.len() as int);
                    assert(erase_arms(arms_view(arms@)) =~= erase_arms(before));
                }
                return Err(err);
            },
            Ok(_) => {},
        }
        i += 1;
    }
    assert(arms_view(arms@) =~= annotate_arms(before, env@));
    assert(erase_arms(arms_view(arms@)) =~= erase_arms(before));
    Ok(())
}

/// Checks one else-if arm of an `If` whose branches are of type `ty`.
pub fn check_arm(arm: &mut (Expr, Expr), env: &Env, ty: &Type) -> (r: Result<(), CheckError>)
    ensures
        erase(final(arm).0@) == erase(old(arm).0@),
        erase(final(arm).1@) == erase(old(arm).1@),
        r is Ok ==> arm_failure((old(arm).0@, old(arm).1@), env@, ty@) is None && final(arm).0@
            == annotate(old(arm).0@, env@) && final(arm).1@ == annotate(old(arm).1@, env@),
        r matches Err(err) ==> arm_failure((old(arm).0@, old(arm).1@), env@, ty@) == Some(err@),
    decreases *old(arm),
{
    let c = type_check_impl(&mut arm.0, env)?;
    if !c.same(&Type::boolean()) {
        return Err(CheckError::ConditionNotBoolean);
    }
    let b = type_check_impl(&mut arm.1, env)?;
    if !b.same(ty) {
        return Err(CheckError::BranchTypeMismatch);
    }
    Ok(())
}

/// Checks the arguments of a call in order and returns their types.
pub fn check_args(args: &mut Vec<Expr>, env: &Env) -> (r: Result<Vec<Type>, CheckError>)
    ensures
        erase_all(exprs_view(final(args)@)) == erase_all(exprs_view(old(args)@)),
        r matches Ok(ts) ==> args_types(exprs_view(old(args)@), env@, old(args)@.len() as int)
            == Ok::<Seq<TypeView>, CheckErrorView>(types_view(ts@)) && exprs_view(final(args)@)
            == annotate_all(exprs_view(old(args)@), env@),
        r matches Err(err) ==> args_types(exprs_view(old(args)@), env@, old(args)@.len() as int)
            == Err::<Seq<TypeView>, CheckErrorView>(err@),
    decreases *old(args),
{
    let ghost before = exprs_view(args@);
    let mut types: Vec<Type> = Vec::new();
    let mut i: usize = 0;
    assert(types_view(types@) =~= Seq::empty());
    while i < args.len()
        invariant
            i <= args.len(),
            args.len() == old(args).len(),
            before == exprs_view(old(args)@),
            args_types(before, env@, i as int) == Ok::<Seq<TypeView>, CheckErrorView>(
                types_view(types@),
            ),
            forall|j: int| 0 <= j < i ==> exprs_view(args@)[j] == annotate_all(before, env@)[j],
            forall|j: int| 0 <= j < i ==> erase_all(exprs_view(args@))[j] == erase_all(before)[j],
            forall|j: int| i <= j < args.len() ==> args@[j] == old(args)@[j],
        decreases args.len() - i,
    {
        let ghost seen = types_view(types@);
        let arg = &mut args[i];
        match type_check_impl(arg, env) {
            Err(err) => {
                proof {
                    lemma_args_failure_persists(before, env@, i + 1, before.len() as int);
                    assert(erase_all(exprs_view(args@)) =~= erase_all(before));
                }
                return Err(err);
            },
            Ok(t) => {
                types.push(t);
                assert(types_view(types@) =~= seen.push(t@));
            },
        }
        i += 1;
    }
    assert(exprs_view(args@) =~= annotate_all(before, env@));
    assert(erase_all(exprs_view(args@)) =~= erase_all(before));
    Ok(types)
}

/// Checks the field initializers of a construction in order and returns
/// their names and types.
pub fn check_inits(inits: &mut Vec<(String, Expr)>, env: &Env) -> (r: Result<
    Vec<(String, Type)>,
    CheckError,
>)
    ensures
        erase_inits(inits_view(final(inits)@)) == erase_inits(inits_view(old(inits)@)),
        r matches Ok(ts) ==> inits_types(inits_view(old(inits)@), env@, old(inits)@.len() as int)
            == Ok::<Seq<(Seq<char>, TypeView)>, CheckErrorView>(fields_view(ts@)) && inits_view(
            final(inits)@,
        ) == annotate_inits(inits_view(old(inits)@), env@),
        r matches Err(err) ==> inits_types(inits_view(old(inits)@), env@, old(inits)@.len() as int)
            == Err::<Seq<(Seq<char>, TypeView)>, CheckErrorView>(err@),
    decreases *old(inits),
{
    let ghost before = inits_view(inits@);
    let mut types: Vec<(String, Type)> = Vec::new();
    let mut i: usize = 0;
    assert(fields_view(types@) =~= Seq::empty());
    while i < inits.len()
        invariant
            i <= inits.len(),
            inits.len() == old(inits).len(),
            before == inits_view(old(inits)@),
            inits_types(before, env@, i as int) == Ok::<Seq<(Seq<char>, TypeView)>, CheckErrorView>(
                fields_view(types@),
            ),
            forall|j: int| 0 <= j < i ==> inits_view(inits@)[j] == annotate_inits(before, env@)[j],
            forall|j: int|
                0 <= j < i ==> erase_inits(inits_view(inits@))[j] == erase_inits(before)[j],
            forall|j: int| i <= j < inits.len() ==> inits@[j] == old(inits)@[j],
        decreases inits.len() - i,
    {
        let ghost seen = fields_view(types@);
        let init = &mut inits[i];
        match type_check_impl(&mut init.1, env) {
            Err(err) => {
                proof {
                    lemma_inits_failure_persists(before, env@, i + 1, before.len() as int);
                    assert(erase_inits(inits_view(inits@)) =~= erase_inits(before));
                }
                return Err(err);
            },
            Ok(t) => {
                let name = init.0.clone();
                types.push((name, t));
                assert(fields_view(types@) =~= seen.push((before[i as int].0, t@)));
            },
        }
        i += 1;
    }
    assert(inits_view(inits@) =~= annotate_inits(before, env@));
    assert(erase_inits(inits_view(inits@)) =~= erase_inits(before));
    Ok(types)
}

} // verus!
