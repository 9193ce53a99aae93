//! Function definitions.

use vstd::prelude::*;
use crate::expr::{Expr, ExprView};
use crate::type_::{fields_view, types_view, Type, TypeView};

verus! {

/// A function: its name, its parameters in order, its return type and its
/// body, a single expression.
#[derive(Debug, PartialEq, Eq)]
pub struct Function {
    pub name: String,
    pub args: Vec<(String, Type)>,
    pub return_type: Type,
    pub body: Expr,
}

/// The mathematical value of a [`Function`].
pub ghost struct FunctionView {
    pub name: Seq<char>,
    pub args: Seq<(Seq<char>, TypeView)>,
    pub return_type: TypeView,
    pub body: ExprView,
}

impl FunctionView {
    /// The function's type: its return type and the types of its parameters,
    /// in order.
    pub open spec fn signature(self) -> TypeView {
        TypeView::Function(
            Box::new(self.return_type),
            Seq::new(self.args.len(), |i: int| self.args[i].1),
        )
    }
}

impl View for Function {
    type V = FunctionView;

    open spec fn view(&self) -> FunctionView {
        FunctionView {
            name: self.name@,
            args: fields_view(self.args@),
            return_type: self.return_type@,
            body: self.body@,
        }
    }
}

impl Function {
    /// The function's type.
    pub fn type_(&self) -> (t: Type)
        ensures
            t@ == self@.signature(),
    {
        let mut params: Vec<Type> = Vec::new();
        let mut i: usize = 0;
        while i < self.args.len()
            invariant
                i <= self.args.len(),
                params.len() == i,
                forall|j: int| 0 <= j < i ==> params@[j]@ == self.args@[j].1@,
            decreases self.args.len() - i,
        {
            params.push(self.args[i].1.clone());
            i += 1;
        }
        assert(types_view(params@) =~= Seq::new(self@.args.len(), |i: int| self@.args[i].1));
        Type::Function(Box::new(self.return_type.clone()), params)
    }
}

impl Clone for Function {
    fn clone(&self) -> (copy: Self)
        ensures
            copy@ == self@,
    {
        Function {
            name: self.name.clone(),
            args: Type::clone_fields(&self.args),
            return_type: self.return_type.clone(),
            body: self.body.clone(),
        }
    }
}

} // verus!
