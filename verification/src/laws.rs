//! Laws of the type checker that relate one run to the next: the checker
//! reads no annotation, it changes nothing but annotations, and a second
//! check of a checked program changes nothing at all.

use vstd::prelude::*;
use crate::expr::{erase, erase_all, erase_arms, erase_inits, ExprView};
use crate::program::ProgramView;
use crate::type_::TypeView;
use crate::type_check::{
    annotate, annotate_all, annotate_arms, annotate_inits, annotate_program,
    args_types, arm_failure, arms_failure, check_failure, function_env, functions_failure, global_env, inits_types, inner_env, type_of, EnvView,
};

verus! {

/// The typing rules read no annotation: two trees that differ in their
/// annotations only have the same type, or fail in the same way.
pub proof fn lemma_type_of_reads_no_annotation(a: ExprView, b: ExprView, env: EnvView)
    requires
        erase(a) == erase(b),
    ensures
        type_of(a, env) == type_of(b, env),
    decreases a, 0int,
{
    match a {
        ExprView::Let(name, init, body, _) => {
            assert(b is Let);
            let init2 = b->Let_1;
            let body2 = b->Let_2;
            lemma_type_of_reads_no_annotation(*init, *init2, env);
            if type_of(*init, env) is Ok {
                lemma_type_of_reads_no_annotation(
                    *body,
                    *body2,
                    env.bind(name, type_of(*init, env)->Ok_0),
                );
            }
        },
        ExprView::Sequence(first, second, _) => {
            assert(b is Sequence);
            let first2 = b->Sequence_0;
            let second2 = b->Sequence_1;
            lemma_type_of_reads_no_annotation(*first, *first2, env);
            lemma_type_of_reads_no_annotation(*second, *second2, env);
        },
        ExprView::If(cond, then, else_ifs, otherwise, _) => {
            assert(b is If);
            let cond2 = b->If_0;
            let then2 = b->If_1;
            let else_ifs2 = b->If_2;
            let otherwise2 = b->If_3;
            lemma_type_of_reads_no_annotation(*cond, *cond2, env);
            lemma_type_of_reads_no_annotation(*then, *then2, env);
            lemma_type_of_reads_no_annotation(*otherwise, *otherwise2, env);
            assert(erase_arms(else_ifs) == erase_arms(else_ifs2));
            if type_of(*then, env) is Ok {
                lemma_arms_read_no_annotation(
                    else_ifs,
                    else_ifs2,
                    env,
                    type_of(*then, env)->Ok_0,
                    else_ifs.len() as int,
                );
            }
        },
        ExprView::For(variable, from, to, body, _) => {
            assert(b is For);
            let from2 = b->For_1;
            let to2 = b->For_2;
            let body2 = b->For_3;
            lemma_type_of_reads_no_annotation(*from, *from2, env);
            lemma_type_of_reads_no_annotation(*to, *to2, env);
            if type_of(*from, env) is Ok {
                lemma_type_of_reads_no_annotation(
                    *body,
                    *body2,
                    env.bind(variable, type_of(*from, env)->Ok_0),
                );
            }
        },
        ExprView::Binary(_, left, right, _) => {
            assert(b is Binary);
            let left2 = b->Binary_1;
            let right2 = b->Binary_2;
            lemma_type_of_reads_no_annotation(*left, *left2, env);
            lemma_type_of_reads_no_annotation(*right, *right2, env);
        },
        ExprView::Apply(callee, args, _) => {
            assert(b is Apply);
            let callee2 = b->Apply_0;
            let args2 = b->Apply_1;
            lemma_type_of_reads_no_annotation(*callee, *callee2, env);
            assert(erase_all(args) == erase_all(args2));
            lemma_args_read_no_annotation(args, args2, env, args.len() as int);
        },
        ExprView::Construct(_, inits, _) => {
            assert(b is Construct);
            let inits2 = b->Construct_1;
            assert(erase_inits(inits) == erase_inits(inits2));
            lemma_inits_read_no_annotation(inits, inits2, env, inits.len() as int);
        },
        ExprView::Dot(base, _, _) => {
            assert(b is Dot);
            let base2 = b->Dot_0;
            lemma_type_of_reads_no_annotation(*base, *base2, env);
        },
        ExprView::Assign(target, value, _) => {
            assert(b is Assign);
            let target2 = b->Assign_0;
            let value2 = b->Assign_1;
            lemma_type_of_reads_no_annotation(*target, *target2, env);
            lemma_type_of_reads_no_annotation(*value, *value2, env);
        },
        ExprView::Println(arg, _) => {
            assert(b is Println);
            let arg2 = b->Println_0;
            lemma_type_of_reads_no_annotation(*arg, *arg2, env);
        },
        ExprView::Number(_, _) => {},
        ExprView::String(_, _) => {},
        ExprView::Identifier(_, _) => {},
    }
}

/// The typing rules read no annotation in a list of arguments.
pub proof fn lemma_args_read_no_annotation(
    a: Seq<ExprView>,
    b: Seq<ExprView>,
    env: EnvView,
    n: int,
)
    requires
        erase_all(a) == erase_all(b),
        0 <= n <= a.len(),
    ensures
        a.len() == b.len(),
        args_types(a, env, n) == args_types(b, env, n),
    decreases a, n,
{
    assert(erase_all(a).len() == a.len());
    assert(erase_all(b).len() == b.len());
    if n > 0 {
        lemma_args_read_no_annotation(a, b, env, n - 1);
        assert(erase_all(a)[n - 1] == erase(a[n - 1]));
        assert(erase_all(b)[n - 1] == erase(b[n - 1]));
        lemma_type_of_reads_no_annotation(a[n - 1], b[n - 1], env);
    }
}

/// The typing rules read no annotation in a list of field initializers.
pub proof fn lemma_inits_read_no_annotation(
    a: Seq<(Seq<char>, ExprView)>,
    b: Seq<(Seq<char>, ExprView)>,
    env: EnvView,
    n: int,
)
    requires
        erase_inits(a) == erase_inits(b),
        0 <= n <= a.len(),
    ensures
        a.len() == b.len(),
        inits_types(a, env, n) == inits_types(b, env, n),
    decreases a, n,
{
    assert(erase_inits(a).len() == a.len());
    assert(erase_inits(b).len() == b.len());
    if n > 0 {
        lemma_inits_read_no_annotation(a, b, env, n - 1);
        assert(erase_inits(a)[n - 1] == (a[n - 1].0, erase(a[n - 1].1)));
        assert(erase_inits(b)[n - 1] == (b[n - 1].0, erase(b[n - 1].1)));
        lemma_type_of_reads_no_annotation(a[n - 1].1, b[n - 1].1, env);
    }
}

/// The typing rules read no annotation in a list of else-if arms.
pub proof fn lemma_arms_read_no_annotation(
    a: Seq<(ExprView, ExprView)>,
    b: Seq<(ExprView, ExprView)>,
    env: EnvView,
    t: TypeView,
    n: int,
)
    requires
        erase_arms(a) == erase_arms(b),
        0 <= n <= a.len(),
    ensures
        a.len() == b.len(),
        arms_failure(a, env, t, n) == arms_failure(b, env, t, n),
    decreases a, n,
{
    assert(erase_arms(a).len() == a.len());
    assert(erase_arms(b).len() == b.len());
    if n > 0 {
        lemma_arms_read_no_annotation(a, b, env, t, n - 1);
        assert(erase_arms(a)[n - 1] == (erase(a[n - 1].0), erase(a[n - 1].1)));
        assert(erase_arms(b)[n - 1] == (erase(b[n - 1].0), erase(b[n - 1].1)));
        lemma_type_of_reads_no_annotation(a[n - 1].0, b[n - 1].0, env);
        lemma_type_of_reads_no_annotation(a[n - 1].1, b[n - 1].1, env);
        assert(arm_failure(a[n - 1], env, t) == arm_failure(b[n - 1], env, t));
    }
}

/// Annotating reads no annotation: two trees that differ in their
/// annotations only are annotated alike.
pub proof fn lemma_annotate_reads_no_annotation(a: ExprView, b: ExprView, env: EnvView)
    requires
        erase(a) == erase(b),
    ensures
        annotate(a, env) == annotate(b, env),
    decreases a, 0int,
{
    lemma_type_of_reads_no_annotation(a, b, env);
    match a {
        ExprView::Let(name, init, body, _) => {
            assert(b is Let);
            let init2 = b->Let_1;
            let body2 = b->Let_2;
            lemma_type_of_reads_no_annotation(*init, *init2, env);
            lemma_annotate_reads_no_annotation(*init, *init2, env);
            lemma_annotate_reads_no_annotation(*body, *body2, inner_env(env, name, *init));
        },
        ExprView::Sequence(first, second, _) => {
            assert(b is Sequence);
            let first2 = b->Sequence_0;
            let second2 = b->Sequence_1;
            lemma_annotate_reads_no_annotation(*first, *first2, env);
            lemma_annotate_reads_no_annotation(*second, *second2, env);
        },
        ExprView::If(cond, then, else_ifs, otherwise, _) => {
            assert(b is If);
            let cond2 = b->If_0;
            let then2 = b->If_1;
            let else_ifs2 = b->If_2;
            let otherwise2 = b->If_3;
            lemma_annotate_reads_no_annotation(*cond, *cond2, env);
            lemma_annotate_reads_no_annotation(*then, *then2, env);
            lemma_annotate_reads_no_annotation(*otherwise, *otherwise2, env);
            assert(erase_arms(else_ifs) == erase_arms(else_ifs2));
            assert(erase_arms(else_ifs).len() == erase_arms(else_ifs2).len());
            assert forall|i: int| 0 <= i < else_ifs.len() implies annotate_arms(else_ifs, env)[i]
                == annotate_arms(else_ifs2, env)[i] by {
                assert(erase_arms(else_ifs)[i] == erase_arms(else_ifs2)[i]);
                lemma_annotate_reads_no_annotation(else_ifs[i].0, else_ifs2[i].0, env);
                lemma_annotate_reads_no_annotation(else_ifs[i].1, else_ifs2[i].1, env);
            }
            assert(annotate_arms(else_ifs, env) =~= annotate_arms(else_ifs2, env));
        },
        ExprView::For(variable, from, to, body, _) => {
            assert(b is For);
            let from2 = b->For_1;
            let to2 = b->For_2;
            let body2 = b->For_3;
            lemma_type_of_reads_no_annotation(*from, *from2, env);
            lemma_annotate_reads_no_annotation(*from, *from2, env);
            lemma_annotate_reads_no_annotation(*to, *to2, env);
            lemma_annotate_reads_no_annotation(*body, *body2, inner_env(env, variable, *from));
        },
        ExprView::Binary(_, left, right, _) => {
            assert(b is Binary);
            let left2 = b->Binary_1;
            let right2 = b->Binary_2;
            lemma_annotate_reads_no_annotation(*left, *left2, env);
            lemma_annotate_reads_no_annotation(*right, *right2, env);
        },
        ExprView::Apply(callee, args, _) => {
            assert(b is Apply);
            let callee2 = b->Apply_0;
            let args2 = b->Apply_1;
            lemma_annotate_reads_no_annotation(*callee, *callee2, env);
            assert(erase_all(args) == erase_all(args2));
            assert(erase_all(args).len() == erase_all(args2).len());
            assert forall|i: int| 0 <= i < args.len() implies annotate_all(args, env)[i]
                == annotate_all(args2, env)[i] by {
                assert(erase_all(args)[i] == erase_all(args2)[i]);
                lemma_annotate_reads_no_annotation(args[i], args2[i], env);
            }
            assert(annotate_all(args, env) =~= annotate_all(args2, env));
        },
        ExprView::Construct(_, inits, _) => {
            assert(b is Construct);
            let inits2 = b->Construct_1;
            assert(erase_inits(inits) == erase_inits(inits2));
            assert(erase_inits(inits).len() == erase_inits(inits2).len());
            assert forall|i: int| 0 <= i < inits.len() implies annotate_inits(inits, env)[i]
                == annotate_inits(inits2, env)[i] by {
                assert(erase_inits(inits)[i] == erase_inits(inits2)[i]);
                lemma_annotate_reads_no_annotation(inits[i].1, inits2[i].1, env);
            }
            assert(annotate_inits(inits, env) =~= annotate_inits(inits2, env));
        },
        ExprView::Dot(base, _, _) => {
            assert(b is Dot);
            let base2 = b->Dot_0;
            lemma_annotate_reads_no_annotation(*base, *base2, env);
        },
        ExprView::Assign(target, value, _) => {
            assert(b is Assign);
            let target2 = b->Assign_0;
            let value2 = b->Assign_1;
            lemma_annotate_reads_no_annotation(*target, *target2, env);
            lemma_annotate_reads_no_annotation(*value, *value2, env);
        },
        ExprView::Println(arg, _) => {
            assert(b is Println);
            let arg2 = b->Println_0;
            lemma_annotate_reads_no_annotation(*arg, *arg2, env);
        },
        ExprView::Number(_, _) => {},
        ExprView::String(_, _) => {},
        ExprView::Identifier(_, _) => {},
    }
}

/// Annotating changes nothing but annotations: the tree is never restructured.
pub proof fn lemma_annotate_keeps_the_tree(e: ExprView, env: EnvView)
    ensures
        erase(annotate(e, env)) == erase(e),
    decreases e,
{
    match e {
        ExprView::Let(name, init, body, _) => {
            lemma_annotate_keeps_the_tree(*init, env);
            lemma_annotate_keeps_the_tree(*body, inner_env(env, name, *init));
        },
        ExprView::Sequence(first, second, _) => {
            lemma_annotate_keeps_the_tree(*first, env);
            lemma_annotate_keeps_the_tree(*second, env);
        },
        ExprView::If(cond, then, else_ifs, otherwise, _) => {
            lemma_annotate_keeps_the_tree(*cond, env);
            lemma_annotate_keeps_the_tree(*then, env);
            lemma_annotate_keeps_the_tree(*otherwise, env);
            assert forall|i: int| 0 <= i < else_ifs.len() implies erase_arms(
                annotate_arms(else_ifs, env),
            )[i] == erase_arms(else_ifs)[i] by {
                lemma_annotate_keeps_the_tree(else_ifs[i].0, env);
                lemma_annotate_keeps_the_tree(else_ifs[i].1, env);
            }
            assert(erase_arms(annotate_arms(else_ifs, env)) =~= erase_arms(else_ifs));
        },
        ExprView::For(variable, from, to, body, _) => {
            lemma_annotate_keeps_the_tree(*from, env);
            lemma_annotate_keeps_the_tree(*to, env);
            lemma_annotate_keeps_the_tree(*body, inner_env(env, variable, *from));
        },
        ExprView::Binary(_, left, right, _) => {
            lemma_annotate_keeps_the_tree(*left, env);
            lemma_annotate_keeps_the_tree(*right, env);
        },
        ExprView::Apply(callee, args, _) => {
            lemma_annotate_keeps_the_tree(*callee, env);
            assert forall|i: int| 0 <= i < args.len() implies erase_all(annotate_all(args, env))[i]
                == erase_all(args)[i] by {
                lemma_annotate_keeps_the_tree(args[i], env);
            }
            assert(erase_all(annotate_all(args, env)) =~= erase_all(args));
        },
        ExprView::Construct(_, inits, _) => {
            assert forall|i: int| 0 <= i < inits.len() implies erase_inits(
                annotate_inits(inits, env),
            )[i] == erase_inits(inits)[i] by {
                lemma_annotate_keeps_the_tree(inits[i].1, env);
            }
            assert(erase_inits(annotate_inits(inits, env)) =~= erase_inits(inits));
        },
        ExprView::Dot(base, _, _) => {
            lemma_annotate_keeps_the_tree(*base, env);
        },
        ExprView::Assign(target, value, _) => {
            lemma_annotate_keeps_the_tree(*target, env);
            lemma_annotate_keeps_the_tree(*value, env);
        },
        ExprView::Println(arg, _) => {
            lemma_annotate_keeps_the_tree(*arg, env);
        },
        ExprView::Number(_, _) => {},
        ExprView::String(_, _) => {},
        ExprView::Identifier(_, _) => {},
    }
}

/// A second check of a checked tree gives the same type and leaves the tree
/// as it is.
pub proof fn lemma_check_is_idempotent(e: ExprView, env: EnvView)
    ensures
        type_of(annotate(e, env), env) == type_of(e, env),
        annotate(annotate(e, env), env) == annotate(e, env),
{
    lemma_annotate_keeps_the_tree(e, env);
    lemma_type_of_reads_no_annotation(annotate(e, env), e, env);
    lemma_annotate_reads_no_annotation(annotate(e, env), e, env);
}

/// Annotating a program changes no signature, so the scope of every function
/// stays what it was.
pub proof fn lemma_annotate_keeps_the_scopes(p: ProgramView, i: int)
    requires
        0 <= i < p.functions.len(),
    ensures
        function_env(annotate_program(p), annotate_program(p).functions[i]) == function_env(
            p,
            p.functions[i],
        ),
{
    assert(global_env(annotate_program(p)).variables =~= global_env(p).variables);
}

/// The first violation among the first `n` functions is the same before and
/// after the program is annotated.
pub proof fn lemma_annotated_program_fails_alike(p: ProgramView, n: int)
    requires
        0 <= n <= p.functions.len(),
    ensures
        functions_failure(annotate_program(p), n) == functions_failure(p, n),
    decreases n,
{
    if n > 0 {
        lemma_annotated_program_fails_alike(p, n - 1);
        lemma_annotate_keeps_the_scopes(p, n - 1);
        lemma_check_is_idempotent(p.functions[n - 1].body, function_env(p, p.functions[n - 1]));
    }
}

/// Checking the same program twice: the second check of a checked program
/// succeeds or fails as the first did, and leaves the program as the first
/// check left it.
pub proof fn lemma_second_check_changes_nothing(p: ProgramView)
    ensures
        check_failure(annotate_program(p)) == check_failure(p),
        annotate_program(annotate_program(p)) == annotate_program(p),
{
    lemma_annotated_program_fails_alike(p, p.functions.len() as int);
    assert forall|i: int| 0 <= i < p.functions.len() implies annotate_program(
        annotate_program(p),
    ).functions[i] == annotate_program(p).functions[i] by {
        lemma_annotate_keeps_the_scopes(p, i);
        lemma_check_is_idempotent(p.functions[i].body, function_env(p, p.functions[i]));
    }
    assert(annotate_program(annotate_program(p)).functions =~= annotate_program(p).functions);
}

} // verus!
