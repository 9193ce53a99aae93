//! Expressions: the decorated syntax tree.

use vstd::prelude::*;
use crate::type_::{Type, TypeView};

verus! {

/// The annotation slot of an expression node; the type checker fills it in.
#[derive(Debug, PartialEq, Eq)]
pub struct Info {
    pub type_: Option<Type>,
}

/// View of an annotation slot.
pub open spec fn info_view(info: Info) -> Option<TypeView> {
    match info.type_ {
        Some(t) => Some(t@),
        None => None,
    }
}

impl Info {
    /// An empty annotation slot.
    pub fn new() -> (info: Self)
        ensures
            info.type_ is None,
    {
        Info { type_: None }
    }
}

impl Clone for Info {
    fn clone(&self) -> (copy: Self)
        ensures
            info_view(copy) == info_view(*self),
    {
        match &self.type_ {
            Some(t) => Info { type_: Some(t.clone()) },
            None => Info { type_: None },
        }
    }
}

/// An expression. Every node owns its children and an annotation slot.
#[derive(Debug, PartialEq, Eq)]
pub enum Expr {
    /// `Let(name, init, body)`: binds `name` to `init` inside `body`.
    Let(String, Box<Expr>, Box<Expr>, Info),
    /// `Sequence(first, second)`.
    Sequence(Box<Expr>, Box<Expr>, Info),
    /// `If(cond, then, else_ifs, else)`; each else-if is a condition and a body.
    If(Box<Expr>, Box<Expr>, Vec<(Expr, Expr)>, Box<Expr>, Info),
    /// `For(variable, from, to, body)`.
    For(String, Box<Expr>, Box<Expr>, Box<Expr>, Info),
    Equal(Box<Expr>, Box<Expr>, Info),
    NotEqual(Box<Expr>, Box<Expr>, Info),
    Add(Box<Expr>, Box<Expr>, Info),
    Sub(Box<Expr>, Box<Expr>, Info),
    /// Remainder.
    Surplus(Box<Expr>, Box<Expr>, Info),
    Mult(Box<Expr>, Box<Expr>, Info),
    Div(Box<Expr>, Box<Expr>, Info),
    /// `Apply(callee, arguments)`.
    Apply(Box<Expr>, Vec<Expr>, Info),
    /// `Construct(struct name, field initializers)`, in the order written.
    Construct(String, Vec<(String, Expr)>, Info),
    /// `Dot(base, field name)`.
    Dot(Box<Expr>, String, Info),
    /// `Assign(target, value)`.
    Assign(Box<Expr>, Box<Expr>, Info),
    Println(Box<Expr>, Info),
    Number(i64, Info),
    String(String, Info),
    Identifier(String, Info),
}

/// The binary operators that compare or compute.
#[derive(Debug, Clone, Copy, PartialEq, Eq)]
pub enum Operator {
    Equal,
    NotEqual,
    Add,
    Sub,
    Surplus,
    Mult,
    Div,
}

/// The mathematical value of an [`Expr`]. The seven operator variants are one
/// variant here, told apart by their [`Operator`]; the last component of
/// every variant is the annotation.
pub ghost enum ExprView {
    Let(Seq<char>, Box<ExprView>, Box<ExprView>, Option<TypeView>),
    Sequence(Box<ExprView>, Box<ExprView>, Option<TypeView>),
    If(Box<ExprView>, Box<ExprView>, Seq<(ExprView, ExprView)>, Box<ExprView>, Option<TypeView>),
    For(Seq<char>, Box<ExprView>, Box<ExprView>, Box<ExprView>, Option<TypeView>),
    Binary(Operator, Box<ExprView>, Box<ExprView>, Option<TypeView>),
    Apply(Box<ExprView>, Seq<ExprView>, Option<TypeView>),
    Construct(Seq<char>, Seq<(Seq<char>, ExprView)>, Option<TypeView>),
    Dot(Box<ExprView>, Seq<char>, Option<TypeView>),
    Assign(Box<ExprView>, Box<ExprView>, Option<TypeView>),
    Println(Box<ExprView>, Option<TypeView>),
    Number(int, Option<TypeView>),
    String(Seq<char>, Option<TypeView>),
    Identifier(Seq<char>, Option<TypeView>),
}

impl ExprView {
    /// The annotation of the node at the root.
    pub open spec fn info(self) -> Option<TypeView> {
        match self {
            ExprView::Let(_, _, _, info) => info,
            ExprView::Sequence(_, _, info) => info,
            ExprView::If(_, _, _, _, info) => info,
            ExprView::For(_, _, _, _, info) => info,
            ExprView::Binary(_, _, _, info) => info,
            ExprView::Apply(_, _, info) => info,
            ExprView::Construct(_, _, info) => info,
            ExprView::Dot(_, _, info) => info,
            ExprView::Assign(_, _, info) => info,
            ExprView::Println(_, info) => info,
            ExprView::Number(_, info) => info,
            ExprView::String(_, info) => info,
            ExprView::Identifier(_, info) => info,
        }
    }
}

/// Whether every node of `e` carries an annotation.
pub open spec fn fully_annotated(e: ExprView) -> bool
    decreases e,
{
    &&& e.info() is Some
    &&& match e {
        ExprView::Let(_, init, body, _) => fully_annotated(*init) && fully_annotated(*body),
        ExprView::Sequence(first, second, _) => fully_annotated(*first) && fully_annotated(*second),
        ExprView::If(cond, then, else_ifs, otherwise, _) => {
            &&& fully_annotated(*cond)
            &&& fully_annotated(*then)
            &&& forall|i: int|
                0 <= i < else_ifs.len() ==> fully_annotated(#[trigger] else_ifs[i].0)
                    && fully_annotated(else_ifs[i].1)
            &&& fully_annotated(*otherwise)
        },
        ExprView::For(_, from, to, body, _) => fully_annotated(*from) && fully_annotated(*to)
            && fully_annotated(*body),
        ExprView::Binary(_, left, right, _) => fully_annotated(*left) && fully_annotated(*right),
        ExprView::Apply(callee, args, _) => fully_annotated(*callee) && forall|i: int|
            0 <= i < args.len() ==> fully_annotated(#[trigger] args[i]),
        ExprView::Construct(_, inits, _) => forall|i: int|
            0 <= i < inits.len() ==> fully_annotated(#[trigger] inits[i].1),
        ExprView::Dot(base, _, _) => fully_annotated(*base),
        ExprView::Assign(target, value, _) => fully_annotated(*target) && fully_annotated(*value),
        ExprView::Println(arg, _) => fully_annotated(*arg),
        ExprView::Number(_, _) => true,
        ExprView::String(_, _) => true,
        ExprView::Identifier(_, _) => true,
    }
}

/// `e` with every annotation slot emptied.
pub open spec fn erase(e: ExprView) -> ExprView
    decreases e, 0int,
{
    match e {
        ExprView::Let(name, init, body, _) => ExprView::Let(
            name,
            Box::new(erase(*init)),
            Box::new(erase(*body)),
            None,
        ),
        ExprView::Sequence(first, second, _) => ExprView::Sequence(
            Box::new(erase(*first)),
            Box::new(erase(*second)),
            None,
        ),
        ExprView::If(cond, then, else_ifs, otherwise, _) => ExprView::If(
            Box::new(erase(*cond)),
            Box::new(erase(*then)),
            erase_arms(else_ifs),
            Box::new(erase(*otherwise)),
            None,
        ),
        ExprView::For(variable, from, to, body, _) => ExprView::For(
            variable,
            Box::new(erase(*from)),
            Box::new(erase(*to)),
            Box::new(erase(*body)),
            None,
        ),
        ExprView::Binary(op, left, right, _) => ExprView::Binary(
            op,
            Box::new(erase(*left)),
            Box::new(erase(*right)),
            None,
        ),
        ExprView::Apply(callee, args, _) => ExprView::Apply(
            Box::new(erase(*callee)),
            erase_all(args),
            None,
        ),
        ExprView::Construct(name, inits, _) => ExprView::Construct(name, erase_inits(inits), None),
        ExprView::Dot(base, field, _) => ExprView::Dot(Box::new(erase(*base)), field, None),
        ExprView::Assign(target, value, _) => ExprView::Assign(
            Box::new(erase(*target)),
            Box::new(erase(*value)),
            None,
        ),
        ExprView::Println(arg, _) => ExprView::Println(Box::new(erase(*arg)), None),
        ExprView::Number(n, _) => ExprView::Number(n, None),
        ExprView::String(text, _) => ExprView::String(text, None),
        ExprView::Identifier(name, _) => ExprView::Identifier(name, None),
    }
}

/// [`erase`] on every expression of a list.
pub open spec fn erase_all(es: Seq<ExprView>) -> Seq<ExprView>
    decreases es, 1int,
{
    Seq::new(
        es.len(),
        |i: int|
            if 0 <= i < es.len() {
                erase(es[i])
            } else {
                arbitrary()
            },
    )
}

/// [`erase`] on the condition and the body of every else-if arm.
pub open spec fn erase_arms(arms: Seq<(ExprView, ExprView)>) -> Seq<(ExprView, ExprView)>
    decreases arms, 1int,
{
    Seq::new(
        arms.len(),
        |i: int|
            if 0 <= i < arms.len() {
                (erase(arms[i].0), erase(arms[i].1))
            } else {
                arbitrary()
            },
    )
}

/// [`erase`] on every field initializer.
pub open spec fn erase_inits(inits: Seq<(Seq<char>, ExprView)>) -> Seq<(Seq<char>, ExprView)>
    decreases inits, 1int,
{
    Seq::new(
        inits.len(),
        |i: int|
            if 0 <= i < inits.len() {
                (inits[i].0, erase(inits[i].1))
            } else {
                arbitrary()
            },
    )
}

/// Whether no node of `e` carries an annotation.
pub open spec fn unannotated(e: ExprView) -> bool {
    erase(e) == e
}

/// View of one expression.
pub open spec fn expr_view(e: Expr) -> ExprView
    decreases e, 0int,
{
    match e {
        Expr::Let(name, init, body, info) => ExprView::Let(
            name@,
            Box::new(expr_view(*init)),
            Box::new(expr_view(*body)),
            info_view(info),
        ),
        Expr::Sequence(first, second, info) => ExprView::Sequence(
            Box::new(expr_view(*first)),
            Box::new(expr_view(*second)),
            info_view(info),
        ),
        Expr::If(cond, then, else_ifs, otherwise, info) => ExprView::If(
            Box::new(expr_view(*cond)),
            Box::new(expr_view(*then)),
            arms_view(else_ifs@),
            Box::new(expr_view(*otherwise)),
            info_view(info),
        ),
        Expr::For(variable, from, to, body, info) => ExprView::For(
            variable@,
            Box::new(expr_view(*from)),
            Box::new(expr_view(*to)),
            Box::new(expr_view(*body)),
            info_view(info),
        ),
        Expr::Equal(lhs, rhs, info) => ExprView::Binary(
            Operator::Equal,
            Box::new(expr_view(*lhs)),
            Box::new(expr_view(*rhs)),
            info_view(info),
        ),
        Expr::NotEqual(lhs, rhs, info) => ExprView::Binary(
            Operator::NotEqual,
            Box::new(expr_view(*lhs)),
            Box::new(expr_view(*rhs)),
            info_view(info),
        ),
        Expr::Add(lhs, rhs, info) => ExprView::Binary(
            Operator::Add,
            Box::new(expr_view(*lhs)),
            Box::new(expr_view(*rhs)),
            info_view(info),
        ),
        Expr::Sub(lhs, rhs, info) => ExprView::Binary(
            Operator::Sub,
            Box::new(expr_view(*lhs)),
            Box::new(expr_view(*rhs)),
            info_view(info),
        ),
        Expr::Surplus(lhs, rhs, info) => ExprView::Binary(
            Operator::Surplus,
            Box::new(expr_view(*lhs)),
            Box::new(expr_view(*rhs)),
            info_view(info),
        ),
        Expr::Mult(lhs, rhs, info) => ExprView::Binary(
            Operator::Mult,
            Box::new(expr_view(*lhs)),
            Box::new(expr_view(*rhs)),
            info_view(info),
        ),
        Expr::Div(lhs, rhs, info) => ExprView::Binary(
            Operator::Div,
            Box::new(expr_view(*lhs)),
            Box::new(expr_view(*rhs)),
            info_view(info),
        ),
        Expr::Apply(callee, args, info) => ExprView::Apply(
            Box::new(expr_view(*callee)),
            exprs_view(args@),
            info_view(info),
        ),
        Expr::Construct(name, inits, info) => ExprView::Construct(
            name@,
            inits_view(inits@),
            info_view(info),
        ),
        Expr::Dot(base, field, info) => ExprView::Dot(
            Box::new(expr_view(*base)),
            field@,
            info_view(info),
        ),
        Expr::Assign(target, value, info) => ExprView::Assign(
            Box::new(expr_view(*target)),
            Box::new(expr_view(*value)),
            info_view(info),
        ),
        Expr::Println(arg, info) => ExprView::Println(Box::new(expr_view(*arg)), info_view(info)),
        Expr::Number(n, info) => ExprView::Number(n as int, info_view(info)),
        Expr::String(text, info) => ExprView::String(text@, info_view(info)),
        Expr::Identifier(name, info) => ExprView::Identifier(name@, info_view(info)),
    }
}

/// Views of a list of expressions, position by position.
pub open spec fn exprs_view(es: Seq<Expr>) -> Seq<ExprView>
    decreases es, 1int,
{
    Seq::new(
        es.len(),
        |i: int|
            if 0 <= i < es.len() {
                expr_view(es[i])
            } else {
                arbitrary()
            },
    )
}

/// Views of a list of else-if arms, position by position.
pub open spec fn arms_view(arms: Seq<(Expr, Expr)>) -> Seq<(ExprView, ExprView)>
    decreases arms, 1int,
{
    Seq::new(
        arms.len(),
        |i: int|
            if 0 <= i < arms.len() {
                (expr_view(arms[i].0), expr_view(arms[i].1))
            } else {
                arbitrary()
            },
    )
}

/// Views of a list of field initializers, position by position.
pub open spec fn inits_view(inits: Seq<(String, Expr)>) -> Seq<(Seq<char>, ExprView)>
    decreases inits, 1int,
{
    Seq::new(
        inits.len(),
        |i: int|
            if 0 <= i < inits.len() {
                (inits[i].0@, expr_view(inits[i].1))
            } else {
                arbitrary()
            },
    )
}

impl View for Expr {
    type V = ExprView;

    open spec fn view(&self) -> ExprView {
        expr_view(*self)
    }
}

/// The instruction that computes `op` in the generated code.
pub open spec fn mnemonic(op: Operator) -> Seq<char> {
    match op {
        Operator::Equal => "icmp eq"@,
        Operator::NotEqual => "icmp ne"@,
        Operator::Add => "add"@,
        Operator::Sub => "sub"@,
        Operator::Mult => "mul"@,
        Operator::Div => "sdiv"@,
        Operator::Surplus => "srem"@,
    }
}

impl Expr {
    /// The node that applies `op` to two operands; its annotation is empty.
    pub fn binary(op: Operator, left: Expr, right: Expr) -> (e: Expr)
        ensures
            e@ == ExprView::Binary(op, Box::new(left@), Box::new(right@), None),
    {
        match op {
            Operator::Equal => Expr::Equal(Box::new(left), Box::new(right), Info::new()),
            Operator::NotEqual => Expr::NotEqual(Box::new(left), Box::new(right), Info::new()),
            Operator::Add => Expr::Add(Box::new(left), Box::new(right), Info::new()),
            Operator::Sub => Expr::Sub(Box::new(left), Box::new(right), Info::new()),
            Operator::Surplus => Expr::Surplus(Box::new(left), Box::new(right), Info::new()),
            Operator::Mult => Expr::Mult(Box::new(left), Box::new(right), Info::new()),
            Operator::Div => Expr::Div(Box::new(left), Box::new(right), Info::new()),
        }
    }

    /// Whether this node is one of the seven binary operators.
    pub fn is_operator(&self) -> (yes: bool)
        ensures
            yes == (self@ is Binary),
    {
        match self {
            Expr::Equal(_, _, _) => true,
            Expr::NotEqual(_, _, _) => true,
            Expr::Add(_, _, _) => true,
            Expr::Sub(_, _, _) => true,
            Expr::Surplus(_, _, _) => true,
            Expr::Mult(_, _, _) => true,
            Expr::Div(_, _, _) => true,
            _ => false,
        }
    }

    /// The instruction that computes this operator node.
    pub fn operand(&self) -> (name: String)
        requires
            self@ is Binary,
        ensures
            self@ matches ExprView::Binary(op, _, _, _) && name@ == mnemonic(op),
    {
        match self {
            Expr::Equal(_, _, _) => "icmp eq".to_string(),
            Expr::NotEqual(_, _, _) => "icmp ne".to_string(),
            Expr::Add(_, _, _) => "add".to_string(),
            Expr::Sub(_, _, _) => "sub".to_string(),
            Expr::Mult(_, _, _) => "mul".to_string(),
            Expr::Div(_, _, _) => "sdiv".to_string(),
            _ => "srem".to_string(),
        }
    }

    /// The annotation slot of this node.
    pub fn info(&self) -> (info: &Info)
        ensures
            info_view(*info) == self@.info(),
    {
        match self {
            Expr::Let(_, _, _, info) => info,
            Expr::Sequence(_, _, info) => info,
            Expr::If(_, _, _, _, info) => info,
            Expr::For(_, _, _, _, info) => info,
            Expr::Equal(_, _, info) => info,
            Expr::NotEqual(_, _, info) => info,
            Expr::Add(_, _, info) => info,
            Expr::Sub(_, _, info) => info,
            Expr::Surplus(_, _, info) => info,
            Expr::Mult(_, _, info) => info,
            Expr::Div(_, _, info) => info,
            Expr::Apply(_, _, info) => info,
            Expr::Construct(_, _, info) => info,
            Expr::Dot(_, _, info) => info,
            Expr::Assign(_, _, info) => info,
            Expr::Println(_, info) => info,
            Expr::Number(_, info) => info,
            Expr::String(_, info) => info,
            Expr::Identifier(_, info) => info,
        }
    }

    /// The resolved type of this node, if the checker has annotated it.
    pub fn type_(&self) -> (ty: Option<Type>)
        ensures
            ty is Some == self@.info() is Some,
            ty matches Some(t) ==> self@.info() == Some(t@),
    {
        match &self.info().type_ {
            Some(t) => Some(t.clone()),
            None => None,
        }
    }

    /// A copy of a list of expressions.
    pub fn clone_list(list: &Vec<Expr>) -> (copy: Vec<Expr>)
        ensures
            exprs_view(copy@) == exprs_view(list@),
        decreases *list,
    {
        let mut copy: Vec<Expr> = Vec::new();
        let mut i: usize = 0;
        while i < list.len()
            invariant
                i <= list.len(),
                copy.len() == i,
                forall|j: int| 0 <= j < i ==> expr_view(copy@[j]) == expr_view(list@[j]),
            decreases list.len() - i,
        {
            copy.push(list[i].clone());
            i += 1;
        }
        assert(exprs_view(copy@) =~= exprs_view(list@));
        copy
    }

    /// A copy of a list of else-if arms.
    pub fn clone_arms(list: &Vec<(Expr, Expr)>) -> (copy: Vec<(Expr, Expr)>)
        ensures
            arms_view(copy@) == arms_view(list@),
        decreases *list,
    {
        let mut copy: Vec<(Expr, Expr)> = Vec::new();
        let mut i: usize = 0;
        while i < list.len()
            invariant
                i <= list.len(),
                copy.len() == i,
                forall|j: int| 0 <= j < i ==> arms_view(copy@)[j] == arms_view(list@)[j],
            decreases list.len() - i,
        {
            copy.push((list[i].0.clone(), list[i].1.clone()));
            i += 1;
        }
        assert(arms_view(copy@) =~= arms_view(list@));
        copy
    }

    /// A copy of a list of field initializers.
    pub fn clone_inits(list: &Vec<(String, Expr)>) -> (copy: Vec<(String, Expr)>)
        ensures
            inits_view(copy@) == inits_view(list@),
        decreases *list,
    {
        let mut copy: Vec<(String, Expr)> = Vec::new();
        let mut i: usize = 0;
        while i < list.len()
            invariant
                i <= list.len(),
                copy.len() == i,
                forall|j: int| 0 <= j < i ==> inits_view(copy@)[j] == inits_view(list@)[j],
            decreases list.len() - i,
        {
            copy.push((list[i].0.clone(), list[i].1.clone()));
            i += 1;
        }
        assert(inits_view(copy@) =~= inits_view(list@));
        copy
    }
}

impl Clone for Expr {
    fn clone(&self) -> (copy: Self)
        ensures
            copy@ == self@,
        decreases *self,
    {
        match self {
            Expr::Let(name, init, body, info) => Expr::Let(
                name.clone(),
                Box::new((**init).clone()),
                Box::new((**body).clone()),
                info.clone(),
            ),
            Expr::Sequence(first, second, info) => Expr::Sequence(
                Box::new((**first).clone()),
                Box::new((**second).clone()),
                info.clone(),
            ),
            Expr::If(cond, then, else_ifs, otherwise, info) => Expr::If(
                Box::new((**cond).clone()),
                Box::new((**then).clone()),
                Expr::clone_arms(else_ifs),
                Box::new((**otherwise).clone()),
                info.clone(),
            ),
            Expr::For(variable, from, to, body, info) => Expr::For(
                variable.clone(),
                Box::new((**from).clone()),
                Box::new((**to).clone()),
                Box::new((**body).clone()),
                info.clone(),
            ),
            Expr::Equal(lhs, rhs, info) => Expr::Equal(
                Box::new((**lhs).clone()),
                Box::new((**rhs).clone()),
                info.clone(),
            ),
            Expr::NotEqual(lhs, rhs, info) => Expr::NotEqual(
                Box::new((**lhs).clone()),
                Box::new((**rhs).clone()),
                info.clone(),
            ),
            Expr::Add(lhs, rhs, info) => Expr::Add(
                Box::new((**lhs).clone()),
                Box::new((**rhs).clone()),
                info.clone(),
            ),
            Expr::Sub(lhs, rhs, info) => Expr::Sub(
                Box::new((**lhs).clone()),
                Box::new((**rhs).clone()),
                info.clone(),
            ),
            Expr::Surplus(lhs, rhs, info) => Expr::Surplus(
                Box::new((**lhs).clone()),
                Box::new((**rhs).clone()),
                info.clone(),
            ),
            Expr::Mult(lhs, rhs, info) => Expr::Mult(
                Box::new((**lhs).clone()),
                Box::new((**rhs).clone()),
                info.clone(),
            ),
            Expr::Div(lhs, rhs, info) => Expr::Div(
                Box::new((**lhs).clone()),
                Box::new((**rhs).clone()),
                info.clone(),
            ),
            Expr::Apply(callee, args, info) => Expr::Apply(
                Box::new((**callee).clone()),
                Expr::clone_list(args),
                info.clone(),
            ),
            Expr::Construct(name, inits, info) => Expr::Construct(
                name.clone(),
                Expr::clone_inits(inits),
                info.clone(),
            ),
            Expr::Dot(base, field, info) => Expr::Dot(
                Box::new((**base).clone()),
                field.clone(),
                info.clone(),
            ),
            Expr::Assign(target, value, info) => Expr::Assign(
                Box::new((**target).clone()),
                Box::new((**value).clone()),
                info.clone(),
            ),
            Expr::Println(arg, info) => Expr::Println(Box::new((**arg).clone()), info.clone()),
            Expr::Number(n, info) => Expr::Number(*n, info.clone()),
            Expr::String(text, info) => Expr::String(text.clone(), info.clone()),
            Expr::Identifier(name, info) => Expr::Identifier(name.clone(), info.clone()),
        }
    }
}

} // verus!
