//! The code generator: one recursive pass over a checked program that lowers
//! it into the textual intermediate representation.
//!
//! Every named binding, whether a parameter, a `Let` or a loop variable, lives
//! in a stack slot that is written when the name is bound and loaded on every
//! use. Values are numbered from one in each function, in the order they are
//! produced, and no number is used twice. The labels of every `If` and `For`
//! carry a number of their own, so that nested constructs never share one.
//!
//! Three choices are fixed here. A field access yields the value of the
//! field; only the target of an assignment is lowered to an address. Every
//! occurrence of a string literal gets a constant of its own, also where two
//! literals have the same text. The upper bound of a loop is evaluated once,
//! before the loop is entered.

use vstd::prelude::*;
use crate::expr::{
    arms_view, exprs_view, info_view, inits_view, mnemonic, Expr, ExprView, Info,
};
use crate::function::{Function, FunctionView};
use crate::ir::{
    alloca, alloca_text, arm_label, arm_label_text, binary, binary_text, block, block_text,
    branch, branch_text, call, call_text, definition, definition_text, field_address,
    field_address_text, global, global_text, ir_return_type, ir_return_type_text, ir_type,
    ir_type_text, jump, jump_text, label, label_text, load, load_text, register, register_text,
    ret, ret_text, slot_align, slot_align_of, store, store_text, string_symbol,
    string_symbol_text, undefined,
};
use crate::program::{Program, ProgramView, StructView};
use crate::text::{decimal, decimal_text, lex_lt, signed, signed_text, str_eq, str_lt};
use crate::type_::{field_index, fields_view, int_type, string_type, unit_type, Type, TypeView};
use crate::type_check::{
    annotate, annotate_all, annotate_arms, annotate_inits, annotate_program, arm_failure,
    check_failure, function_env, function_failure, inner_env, lemma_args_each_checked,
    lemma_arms_each_checked, lemma_functions_each_checked, lemma_inits_each_checked, lookup,
    resolved, type_of, CheckErrorView, EnvView,
};

verus! {

/// The mathematical value of the generator's state.
pub ghost struct GenView {
    /// The lines emitted so far.
    pub lines: Seq<Seq<char>>,
    /// The number of the value produced last in the current function.
    pub values: nat,
    /// How many `If` and `For` constructs have taken their labels.
    pub labels: nat,
    /// The stack slot of every name in scope, most recent last.
    pub scope: Seq<(Seq<char>, nat)>,
    /// The external symbols required so far, each with its declaration,
    /// sorted by name.
    pub externals: Seq<(Seq<char>, Seq<char>)>,
    /// The string literals met so far, in order.
    pub strings: Seq<Seq<char>>,
}

/// The first position at or after `from` whose name is not before `name`.
pub open spec fn insertion_point(externals: Seq<(Seq<char>, Seq<char>)>, name: Seq<char>, from: int) -> int
    decreases externals.len() - from,
{
    if from < 0 || from >= externals.len() || !lex_lt(externals[from].0, name) {
        from
    } else {
        insertion_point(externals, name, from + 1)
    }
}

/// `externals` with the symbol `name` required: if it is not there yet, it is
/// put in with its declaration at the place that keeps the names sorted.
pub open spec fn required(
    externals: Seq<(Seq<char>, Seq<char>)>,
    name: Seq<char>,
    declaration: Seq<char>,
) -> Seq<(Seq<char>, Seq<char>)> {
    let at = insertion_point(externals, name, 0);
    if 0 <= at < externals.len() && externals[at].0 == name {
        externals
    } else {
        externals.insert(at, (name, declaration))
    }
}

impl GenView {
    /// The state with one more line.
    pub open spec fn emit(self, line: Seq<char>) -> GenView {
        GenView {
            lines: self.lines.push(line),
            values: self.values,
            labels: self.labels,
            scope: self.scope,
            externals: self.externals,
            strings: self.strings,
        }
    }

    /// The state after a line that defines the next value as the result of
    /// `operation`.
    pub open spec fn define(self, operation: Seq<char>) -> GenView {
        GenView {
            lines: self.lines.push(definition(self.values + 1, operation)),
            values: self.values + 1,
            labels: self.labels,
            scope: self.scope,
            externals: self.externals,
            strings: self.strings,
        }
    }

    /// The operand that names the value produced last.
    pub open spec fn last(self) -> Seq<char> {
        register(self.values)
    }

    /// The state after a fresh stack slot for a value of type `t`; the slot is
    /// the value produced last.
    pub open spec fn slot(self, t: TypeView) -> GenView {
        self.define(alloca(ir_type(t), slot_align(t)))
    }

    /// The state after `value`, of type `t`, is stored to `pointer`.
    pub open spec fn store(self, t: TypeView, value: Seq<char>, pointer: Seq<char>) -> GenView {
        self.emit(store(ir_type(t), value, pointer, slot_align(t)))
    }

    /// The state after a value of type `t` is loaded from `pointer`.
    pub open spec fn load(self, t: TypeView, pointer: Seq<char>) -> GenView {
        self.define(load(ir_type(t), pointer, slot_align(t)))
    }

    /// The state after `value`, of type `t`, is put into a fresh stack slot;
    /// the slot is the value produced last.
    pub open spec fn spill(self, t: TypeView, value: Seq<char>) -> GenView {
        let fresh = self.slot(t);
        fresh.store(t, value, fresh.last())
    }

    /// The state with `name` bound to stack slot `slot`.
    pub open spec fn bind(self, name: Seq<char>, slot: nat) -> GenView {
        GenView {
            lines: self.lines,
            values: self.values,
            labels: self.labels,
            scope: self.scope.push((name, slot)),
            externals: self.externals,
            strings: self.strings,
        }
    }

    /// The state without the most recent binding.
    pub open spec fn unbind(self) -> GenView {
        GenView {
            lines: self.lines,
            values: self.values,
            labels: self.labels,
            scope: self.scope.drop_last(),
            externals: self.externals,
            strings: self.strings,
        }
    }

    /// The state after a construct has taken its labels.
    pub open spec fn next_label(self) -> GenView {
        GenView {
            lines: self.lines,
            values: self.values,
            labels: self.labels + 1,
            scope: self.scope,
            externals: self.externals,
            strings: self.strings,
        }
    }

    /// The state with one more string literal.
    pub open spec fn intern(self, text: Seq<char>) -> GenView {
        GenView {
            lines: self.lines,
            values: self.values,
            labels: self.labels,
            scope: self.scope,
            externals: self.externals,
            strings: self.strings.push(text),
        }
    }

    /// The state with the external symbol `name` required.
    pub open spec fn require(self, name: Seq<char>, declaration: Seq<char>) -> GenView {
        GenView {
            lines: self.lines,
            values: self.values,
            labels: self.labels,
            scope: self.scope,
            externals: required(self.externals, name, declaration),
            strings: self.strings,
        }
    }

    /// Where `name` lives: its stack slot if it is in scope, the global
    /// symbol of that name otherwise.
    pub open spec fn pointer(self, name: Seq<char>) -> Seq<char> {
        match lookup(self.scope, name) {
            Some(slot) => register(slot),
            None => global(name),
        }
    }
}

/// The annotation of the root of `e`.
pub open spec fn annotation(e: ExprView) -> TypeView {
    match e.info() {
        Some(t) => t,
        None => unit_type(),
    }
}

/// Whether `t` is a struct type with a field called `field`.
pub open spec fn has_field(t: TypeView, field: Seq<char>) -> bool {
    t matches TypeView::Struct(_, fields) && field_index(fields, field) is Some
}

/// The position of `field` in the struct type `t`.
pub open spec fn position(t: TypeView, field: Seq<char>) -> nat {
    match t {
        TypeView::Struct(_, fields) => match field_index(fields, field) {
            Some(i) => i as nat,
            None => 0,
        },
        _ => 0,
    }
}

/// What the generator can lower: every node is annotated, the callee of
/// every call is a bare identifier, and the base of every field access is
/// annotated with a struct type that has the field.
pub open spec fn lowerable(e: ExprView) -> bool
    decreases e,
{
    &&& e.info() is Some
    &&& match e {
        ExprView::Let(_, init, body, _) => lowerable(*init) && lowerable(*body),
        ExprView::Sequence(first, second, _) => lowerable(*first) && lowerable(*second),
        ExprView::If(cond, then, else_ifs, otherwise, _) => {
            &&& lowerable(*cond)
            &&& lowerable(*then)
            &&& forall|i: int|
                #![trigger else_ifs[i]]
                0 <= i < else_ifs.len() ==> lowerable(else_ifs[i].0) && lowerable(else_ifs[i].1)
            &&& lowerable(*otherwise)
        },
        ExprView::For(_, from, to, body, _) => lowerable(*from) && lowerable(*to) && lowerable(
            *body,
        ),
        ExprView::Binary(_, left, right, _) => lowerable(*left) && lowerable(*right),
        ExprView::Apply(callee, args, _) => {
            &&& *callee is Identifier
            &&& forall|i: int| #![trigger args[i]] 0 <= i < args.len() ==> lowerable(args[i])
        },
        ExprView::Construct(_, inits, _) => forall|i: int|
            #![trigger inits[i]]
            0 <= i < inits.len() ==> lowerable(inits[i].1),
        ExprView::Dot(base, field, _) => lowerable(*base) && has_field(annotation(*base), field),
        ExprView::Assign(target, value, _) => lowerable(*target) && lowerable(*value),
        ExprView::Println(arg, _) => lowerable(*arg),
        ExprView::Number(_, _) => true,
        ExprView::String(_, _) => true,
        ExprView::Identifier(_, _) => true,
    }
}

/// Every argument of a lowerable call is lowerable.
pub proof fn lemma_lowerable_args(callee: ExprView, args: Seq<ExprView>, info: Option<TypeView>)
    requires
        lowerable(ExprView::Apply(Box::new(callee), args, info)),
    ensures
        forall|i: int| #![trigger args[i]] 0 <= i < args.len() ==> lowerable(args[i]),
{
    let e = ExprView::Apply(Box::new(callee), args, info);
    assert(e->Apply_1 == args);
}

/// Every field initializer of a lowerable construction is lowerable.
pub proof fn lemma_lowerable_inits(
    name: Seq<char>,
    inits: Seq<(Seq<char>, ExprView)>,
    info: Option<TypeView>,
)
    requires
        lowerable(ExprView::Construct(name, inits, info)),
    ensures
        forall|i: int| #![trigger inits[i]] 0 <= i < inits.len() ==> lowerable(inits[i].1),
{
    let e = ExprView::Construct(name, inits, info);
    assert(e->Construct_1 == inits);
}

/// The condition and the body of every else-if arm of a lowerable `If` are
/// lowerable.
pub proof fn lemma_lowerable_arms(
    cond: ExprView,
    then: ExprView,
    arms: Seq<(ExprView, ExprView)>,
    otherwise: ExprView,
    info: Option<TypeView>,
)
    requires
        lowerable(
            ExprView::If(Box::new(cond), Box::new(then), arms, Box::new(otherwise), info),
        ),
    ensures
        forall|i: int|
            #![trigger arms[i]]
            0 <= i < arms.len() ==> lowerable(arms[i].0) && lowerable(arms[i].1),
{
    let e = ExprView::If(Box::new(cond), Box::new(then), arms, Box::new(otherwise), info);
    assert(e->If_2 == arms);
}

/// What separates item number `k` of a list from the items before it.
pub open spec fn separator(k: int) -> Seq<char> {
    if k <= 0 {
        Seq::empty()
    } else {
        ", "@
    }
}

/// Where control goes when the condition before else-if arm `k` fails: to
/// arm `k` if there is one, to the else branch otherwise.
pub open spec fn next_arm(id: nat, k: nat, arms: nat) -> Seq<char> {
    if k < arms {
        arm_label("elif"@, id, k)
    } else {
        label("else"@, id)
    }
}

/// The global symbol that a call of `callee` goes to.
pub open spec fn callee_symbol(callee: ExprView) -> Seq<char> {
    match callee {
        ExprView::Identifier(name, _) => global(name),
        _ => global(""@),
    }
}

/// The lowering of `e` as a value: the state after its instructions are
/// emitted, and the operand that holds its value.
pub open spec fn lower(e: ExprView, g: GenView) -> (GenView, Seq<char>)
    decreases e, 0int,
{
    match e {
        ExprView::Let(name, init, body, _) => {
            let (g1, value) = lower(*init, g);
            let g2 = g1.spill(annotation(*init), value);
            let (g3, result) = lower(*body, g2.bind(name, g2.values));
            (g3.unbind(), result)
        },
        ExprView::Sequence(first, second, _) => {
            let (g1, _) = materialize(*first, g);
            materialize(*second, g1)
        },
        ExprView::If(cond, then, else_ifs, otherwise, _) => {
            let t = annotation(e);
            let (g1, c) = lower(*cond, g);
            let g2 = g1.slot(t);
            let slot = g2.last();
            let id = g2.labels;
            let g3 = g2.emit(
                branch(c, label("then"@, id), next_arm(id, 0, else_ifs.len())),
            ).next_label().emit(block(label("then"@, id)));
            let (g4, v) = lower(*then, g3);
            let g5 = g4.store(t, v, slot).emit(jump(label("endif"@, id)));
            let g6 = lower_arms(else_ifs, g5, t, slot, id, else_ifs.len() as int);
            let g7 = g6.emit(block(label("else"@, id)));
            let (g8, w) = lower(*otherwise, g7);
            let g9 = g8.store(t, w, slot).emit(jump(label("endif"@, id))).emit(
                block(label("endif"@, id)),
            ).load(t, slot);
            (g9, g9.last())
        },
        ExprView::For(variable, from, to, body, _) => {
            let t = annotation(*from);
            let (g1, low) = lower(*from, g);
            let (g2, high) = lower(*to, g1);
            let g3 = g2.spill(t, low);
            let slot = g3.values;
            let id = g3.labels;
            let g4 = g3.emit(jump(label("for.cond"@, id))).next_label().emit(
                block(label("for.cond"@, id)),
            ).load(t, register(slot));
            let g5 = g4.define(binary("icmp sle"@, ir_type(t), g4.last(), high));
            let g6 = g5.emit(
                branch(g5.last(), label("for.body"@, id), label("for.end"@, id)),
            ).emit(block(label("for.body"@, id)));
            let (g7, _) = lower(*body, g6.bind(variable, slot));
            let g8 = g7.unbind().load(t, register(slot));
            let g9 = g8.define(binary("add"@, ir_type(t), g8.last(), "1"@));
            let g10 = g9.store(t, g9.last(), register(slot)).emit(
                jump(label("for.cond"@, id)),
            ).emit(block(label("for.end"@, id)));
            (g10, undefined())
        },
        ExprView::Binary(op, left, right, _) => {
            let (g1, a) = lower(*left, g);
            let (g2, b) = lower(*right, g1);
            let g3 = g2.define(binary(mnemonic(op), ir_type(annotation(*left)), a, b));
            (g3, g3.last())
        },
        ExprView::Apply(callee, args, _) => {
            let (g1, list) = lower_args(args, g, args.len() as int);
            if annotation(e) == unit_type() {
                (g1.emit("  "@ + call("void"@, callee_symbol(*callee), list)), undefined())
            } else {
                let g2 = g1.define(call(ir_type(annotation(e)), callee_symbol(*callee), list));
                (g2, g2.last())
            }
        },
        ExprView::Construct(name, inits, _) => {
            let ty = "%"@ + name;
            let g1 = g.define(alloca(ty, 8));
            let slot = g1.last();
            let g2 = lower_inits(inits, g1, ty, slot, inits.len() as int);
            let g3 = g2.define(load(ty, slot, 8));
            (g3, g3.last())
        },
        ExprView::Dot(base, field, _) => {
            let (g1, pointer) = member(*base, field, g);
            let g2 = g1.load(annotation(e), pointer);
            (g2, g2.last())
        },
        ExprView::Assign(target, value, _) => {
            let (g1, v) = lower(*value, g);
            let (g2, pointer) = address(*target, g1);
            (g2.store(annotation(*value), v, pointer), v)
        },
        ExprView::Println(arg, _) => {
            let (g1, v) = lower(*arg, g.require("puts"@, "declare i32 @puts(ptr)"@));
            (g1.define(call("i32"@, global("puts"@), "ptr "@ + v)), undefined())
        },
        ExprView::Number(n, _) => (g, signed(n)),
        ExprView::String(text, _) => (g.intern(text), string_symbol(g.strings.len())),
        ExprView::Identifier(name, _) => match lookup(g.scope, name) {
            Some(slot) => {
                let g1 = g.load(annotation(e), register(slot));
                (g1, g1.last())
            },
            None => (g, global(name)),
        },
    }
}

/// The lowering of `e` where it stands alone in a sequence: a literal is put
/// through a stack slot, so that it ends in a register like every other value.
pub open spec fn materialize(e: ExprView, g: GenView) -> (GenView, Seq<char>)
    decreases e, 1int,
{
    match e {
        ExprView::Number(_, _) => {
            let (g1, v) = lower(e, g);
            let g2 = g1.spill(int_type(), v);
            let g3 = g2.load(int_type(), g2.last());
            (g3, g3.last())
        },
        ExprView::String(_, _) => {
            let (g1, v) = lower(e, g);
            let g2 = g1.spill(string_type(), v);
            let g3 = g2.load(string_type(), g2.last());
            (g3, g3.last())
        },
        _ => lower(e, g),
    }
}

/// The lowering of `e` as the target of an assignment: the state after its
/// instructions are emitted, and a pointer to where its value lives. A name
/// is its slot, a field access is the address of the field, and any other
/// expression is evaluated into a fresh slot.
pub open spec fn address(e: ExprView, g: GenView) -> (GenView, Seq<char>)
    decreases e, 1int,
{
    match e {
        ExprView::Identifier(name, _) => (g, g.pointer(name)),
        ExprView::Dot(base, field, _) => member(*base, field, g),
        _ => {
            let (g1, v) = lower(e, g);
            let g2 = g1.spill(annotation(e), v);
            (g2, g2.last())
        },
    }
}

/// The address of the field `field` of the struct that `base` evaluates to:
/// the field's position in the declared order selects it.
pub open spec fn member(base: ExprView, field: Seq<char>, g: GenView) -> (GenView, Seq<char>)
    decreases base, 2int,
{
    let (g1, pointer) = address(base, g);
    let g2 = g1.define(
        field_address(ir_type(annotation(base)), pointer, position(annotation(base), field)),
    );
    (g2, g2.last())
}

/// The lowering of the first `n` arguments of a call, from left to right:
/// the state after them, and the argument list as it is written in the call.
pub open spec fn lower_args(args: Seq<ExprView>, g: GenView, n: int) -> (GenView, Seq<char>)
    decreases args, n,
{
    if n <= 0 || n > args.len() {
        (g, Seq::empty())
    } else {
        let (g1, list) = lower_args(args, g, n - 1);
        let (g2, v) = lower(args[n - 1], g1);
        (g2, list + separator(n - 1) + ir_type(annotation(args[n - 1])) + " "@ + v)
    }
}

/// The lowering of the first `n` field initializers of a construction into
/// the slot at `slot` of a struct written `ty`: for each field in order, its
/// address, then its initializer, then the store.
pub open spec fn lower_inits(
    inits: Seq<(Seq<char>, ExprView)>,
    g: GenView,
    ty: Seq<char>,
    slot: Seq<char>,
    n: int,
) -> GenView
    decreases inits, n,
{
    if n <= 0 || n > inits.len() {
        g
    } else {
        let g1 = lower_inits(inits, g, ty, slot, n - 1);
        let g2 = g1.define(field_address(ty, slot, (n - 1) as nat));
        let (g3, v) = lower(inits[n - 1].1, g2);
        g3.store(annotation(inits[n - 1].1), v, g2.last())
    }
}

/// The lowering of the first `n` else-if arms of the `If` number `id`, whose
/// value is of type `t` and collected in the slot at `slot`.
pub open spec fn lower_arms(
    arms: Seq<(ExprView, ExprView)>,
    g: GenView,
    t: TypeView,
    slot: Seq<char>,
    id: nat,
    n: int,
) -> GenView
    decreases arms, n,
{
    if n <= 0 || n > arms.len() {
        g
    } else {
        let k = (n - 1) as nat;
        let g1 = lower_arms(arms, g, t, slot, id, n - 1);
        let (g2, c) = lower(arms[n - 1].0, g1.emit(block(arm_label("elif"@, id, k))));
        let g3 = g2.emit(
            branch(c, arm_label("elif.then"@, id, k), next_arm(id, k + 1, arms.len())),
        ).emit(block(arm_label("elif.then"@, id, k)));
        let (g4, v) = lower(arms[n - 1].1, g3);
        g4.store(t, v, slot).emit(jump(label("endif"@, id)))
    }
}

/// The first `n` parameters as they are written in a function header.
pub open spec fn params_text(args: Seq<(Seq<char>, TypeView)>, n: int) -> Seq<char>
    decreases n,
{
    if n <= 0 || n > args.len() {
        Seq::empty()
    } else {
        params_text(args, n - 1) + separator(n - 1) + ir_type(args[n - 1].1) + " %"@ + args[n
            - 1].0
    }
}

/// The line that opens the definition of `f`.
pub open spec fn header(f: FunctionView) -> Seq<char> {
    "define "@ + ir_return_type(f.return_type) + " @"@ + f.name + "("@ + params_text(
        f.args,
        f.args.len() as int,
    ) + ") {"@
}

/// The state after the first `n` parameters have each been stored into a
/// slot of their own and bound to it.
pub open spec fn lower_params(args: Seq<(Seq<char>, TypeView)>, g: GenView, n: int) -> GenView
    decreases n,
{
    if n <= 0 || n > args.len() {
        g
    } else {
        let g1 = lower_params(args, g, n - 1).spill(args[n - 1].1, "%"@ + args[n - 1].0);
        g1.bind(args[n - 1].0, g1.values)
    }
}

/// The state after the definition of `f` is emitted: the header, the entry
/// block with a slot for every parameter, the body, the return of the body's
/// value, and the closing brace. Values are numbered anew.
pub open spec fn lower_function(f: FunctionView, g: GenView) -> GenView {
    let opened = GenView {
        lines: g.lines.push(header(f)),
        values: 0,
        labels: g.labels,
        scope: Seq::empty(),
        externals: g.externals,
        strings: g.strings,
    };
    let g1 = lower_params(f.args, opened.emit(block("entry"@)), f.args.len() as int);
    let (g2, v) = lower(f.body, g1);
    let g3 = g2.emit(ret(f.return_type, v)).emit("}"@);
    GenView {
        lines: g3.lines,
        values: g3.values,
        labels: g3.labels,
        scope: Seq::empty(),
        externals: g3.externals,
        strings: g3.strings,
    }
}

/// The state after the first `n` functions are emitted, in source order.
pub open spec fn lower_functions(fs: Seq<FunctionView>, g: GenView, n: int) -> GenView
    decreases n,
{
    if n <= 0 || n > fs.len() {
        g
    } else {
        lower_function(fs[n - 1], lower_functions(fs, g, n - 1))
    }
}

/// The types of the first `n` fields as they are written in a type declaration.
pub open spec fn field_types(fields: Seq<(Seq<char>, TypeView)>, n: int) -> Seq<char>
    decreases n,
{
    if n <= 0 || n > fields.len() {
        Seq::empty()
    } else {
        field_types(fields, n - 1) + separator(n - 1) + ir_type(fields[n - 1].1)
    }
}

/// The type declaration of a struct: its field types in declared order.
pub open spec fn struct_line(s: StructView) -> Seq<char> {
    "%"@ + s.0 + " = type { "@ + field_types(s.1, s.1.len() as int) + " }"@
}

/// The first `n` bytes as they are written in a constant.
pub open spec fn bytes_text(bytes: Seq<u8>, n: int) -> Seq<char>
    decreases n,
{
    if n <= 0 || n > bytes.len() {
        Seq::empty()
    } else {
        bytes_text(bytes, n - 1) + "i8 "@ + decimal(bytes[n - 1] as nat) + ", "@
    }
}

/// The constant that holds string literal number `k`: the bytes of its
/// UTF-8 encoding, then a zero byte.
pub open spec fn string_constant(k: nat, text: Seq<char>) -> Seq<char> {
    let bytes = vstd::utf8::encode_utf8(text);
    string_symbol(k) + " = private constant ["@ + decimal(bytes.len() + 1) + " x i8] ["@
        + bytes_text(bytes, bytes.len() as int) + "i8 0]"@
}

/// The state of the generator when all of `p` is lowered: the type
/// declarations, then the functions.
pub open spec fn generated(p: ProgramView) -> GenView {
    lower_functions(
        p.functions,
        GenView {
            lines: Seq::new(p.structs.len(), |i: int| struct_line(p.structs[i])),
            values: 0,
            labels: 0,
            scope: Seq::empty(),
            externals: Seq::empty(),
            strings: Seq::empty(),
        },
        p.functions.len() as int,
    )
}

/// The lines of the intermediate representation of `p`: one type declaration
/// per struct, in declared order; one definition per function, in source
/// order; one declaration per required external symbol, sorted by name; one
/// constant per string literal, in the order met.
pub open spec fn ir_lines(p: ProgramView) -> Seq<Seq<char>> {
    let g = generated(p);
    g.lines + Seq::new(g.externals.len(), |i: int| g.externals[i].1) + Seq::new(
        g.strings.len(),
        |i: int| string_constant(i as nat, g.strings[i]),
    )
}

/// The first `n` lines, each ended by a line feed.
pub open spec fn concat_lines(lines: Seq<Seq<char>>, n: int) -> Seq<char>
    decreases n,
{
    if n <= 0 || n > lines.len() {
        Seq::empty()
    } else {
        concat_lines(lines, n - 1) + lines[n - 1] + "\n"@
    }
}

/// The intermediate representation of `p`, as one text.
pub open spec fn ir_text(p: ProgramView) -> Seq<char> {
    concat_lines(ir_lines(p), ir_lines(p).len() as int)
}

/// Whether the generator can lower every function body of `p`.
pub open spec fn lowerable_program(p: ProgramView) -> bool {
    forall|i: int| 0 <= i < p.functions.len() ==> lowerable((#[trigger] p.functions[i]).body)
}

/// Views of a list of texts, position by position.
pub open spec fn texts_view(v: Seq<String>) -> Seq<Seq<char>> {
    Seq::new(v.len(), |i: int| v[i]@)
}

/// Views of a list of bindings of names to slots, position by position.
pub open spec fn scope_view(v: Seq<(String, usize)>) -> Seq<(Seq<char>, nat)> {
    Seq::new(v.len(), |i: int| (v[i].0@, v[i].1 as nat))
}

/// Views of a list of external symbols with their declarations, position by
/// position.
pub open spec fn externals_view(v: Seq<(String, String)>) -> Seq<(Seq<char>, Seq<char>)> {
    Seq::new(v.len(), |i: int| (v[i].0@, v[i].1@))
}

/// The state that one generation pass carries along.
#[derive(Debug)]
pub struct Generator {
    /// The lines emitted so far.
    pub lines: Vec<String>,
    /// The number of the value produced last in the current function.
    pub values: usize,
    /// How many `If` and `For` constructs have taken their labels.
    pub labels: usize,
    /// The stack slot of every name in scope, most recent last.
    pub scope: Vec<(String, usize)>,
    /// The external symbols required so far, each with its declaration,
    /// sorted by name.
    pub externals: Vec<(String, String)>,
    /// The string literals met so far, in order.
    pub strings: Vec<String>,
}

impl View for Generator {
    type V = GenView;

    open spec fn view(&self) -> GenView {
        GenView {
            lines: texts_view(self.lines@),
            values: self.values as nat,
            labels: self.labels as nat,
            scope: scope_view(self.scope@),
            externals: externals_view(self.externals@),
            strings: texts_view(self.strings@),
        }
    }
}

impl Generator {
    /// Inside a function every value and every construct that took labels is
    /// behind a line of its own, and the function's header is one line more:
    /// the counters stay below the number of lines, so they cannot overflow.
    pub open spec fn wf(&self) -> bool {
        self.values + self.labels < self.lines.len()
    }

    /// A generator that has emitted nothing.
    pub fn new() -> (g: Self)
        ensures
            g@.lines.len() == 0,
            g@.values == 0,
            g@.labels == 0,
            g@.scope.len() == 0,
            g@.externals.len() == 0,
            g@.strings.len() == 0,
    {
        Generator {
            lines: Vec::new(),
            values: 0,
            labels: 0,
            scope: Vec::new(),
            externals: Vec::new(),
            strings: Vec::new(),
        }
    }

    /// Emits one line.
    pub fn emit(&mut self, line: String)
        ensures
            final(self)@ == old(self)@.emit(line@),
            final(self).lines.len() == old(self).lines.len() + 1,
            final(self).values == old(self).values,
            final(self).labels == old(self).labels,
    {
        self.lines.push(line);
        assert(texts_view(self.lines@) =~= texts_view(old(self).lines@).push(line@));
    }

    /// Emits the line that defines the next value as the result of
    /// `operation`, and returns the register that holds it.
    pub fn define(&mut self, operation: &str) -> (operand: String)
        requires
            old(self).wf(),
        ensures
            final(self)@ == old(self)@.define(operation@),
            final(self).wf(),
            operand@ == final(self)@.last(),
    {
        let n = self.values + 1;
        self.lines.push(definition_text(n, operation));
        self.values = n;
        assert(texts_view(self.lines@) =~= texts_view(old(self).lines@).push(
            definition(n as nat, operation@),
        ));
        register_text(n)
    }

    /// The register that holds the value produced last.
    pub fn last(&self) -> (operand: String)
        ensures
            operand@ == self@.last(),
    {
        register_text(self.values)
    }

    /// Allocates a fresh stack slot for a value of type `t`.
    pub fn slot(&mut self, t: &Type) -> (pointer: String)
        requires
            old(self).wf(),
        ensures
            final(self)@ == old(self)@.slot(t@),
            final(self).wf(),
            pointer@ == final(self)@.last(),
    {
        let operation = alloca_text(ir_type_text(t).as_str(), slot_align_of(t));
        self.define(operation.as_str())
    }

    /// Stores `value`, of type `t`, to `pointer`.
    pub fn store(&mut self, t: &Type, value: &str, pointer: &str)
        ensures
            final(self)@ == old(self)@.store(t@, value@, pointer@),
            final(self).lines.len() == old(self).lines.len() + 1,
            final(self).values == old(self).values,
            final(self).labels == old(self).labels,
    {
        self.emit(store_text(ir_type_text(t).as_str(), value, pointer, slot_align_of(t)));
    }

    /// Loads a value of type `t` from `pointer`.
    pub fn load(&mut self, t: &Type, pointer: &str) -> (operand: String)
        requires
            old(self).wf(),
        ensures
            final(self)@ == old(self)@.load(t@, pointer@),
            final(self).wf(),
            operand@ == final(self)@.last(),
    {
        let operation = load_text(ir_type_text(t).as_str(), pointer, slot_align_of(t));
        self.define(operation.as_str())
    }

    /// Puts `value`, of type `t`, into a fresh stack slot.
    pub fn spill(&mut self, t: &Type, value: &str) -> (pointer: String)
        requires
            old(self).wf(),
        ensures
            final(self)@ == old(self)@.spill(t@, value@),
            final(self).wf(),
            pointer@ == final(self)@.last(),
    {
        let pointer = self.slot(t);
        self.store(t, value, pointer.as_str());
        pointer
    }

    /// Binds `name` to the stack slot `slot`.
    pub fn bind(&mut self, name: String, slot: usize)
        ensures
            final(self)@ == old(self)@.bind(name@, slot as nat),
            old(self).wf() ==> final(self).wf(),
    {
        self.scope.push((name, slot));
        assert(scope_view(self.scope@) =~= scope_view(old(self).scope@).push(
            (name@, slot as nat),
        ));
    }

    /// Drops the most recent binding.
    pub fn unbind(&mut self)
        requires
            old(self)@.scope.len() > 0,
        ensures
            final(self)@ == old(self)@.unbind(),
            old(self).wf() ==> final(self).wf(),
    {
        self.scope.pop();
        assert(scope_view(self.scope@) =~= scope_view(old(self).scope@).drop_last());
    }

    /// The stack slot of `name`, if it is in scope.
    pub fn slot_of(&self, name: &str) -> (found: Option<usize>)
        ensures
            match found {
                Some(slot) => lookup(self@.scope, name@) == Some(slot as nat),
                None => lookup(self@.scope, name@) is None,
            },
    {
        let ghost all = self@.scope;
        let mut i: usize = self.scope.len();
        assert(all.take(i as int) =~= all);
        while i > 0
            invariant
                i <= self.scope.len(),
                all == scope_view(self.scope@),
                lookup(all, name@) == lookup(all.take(i as int), name@),
            decreases i,
        {
            i -= 1;
            assert(all.take(i + 1).drop_last() =~= all.take(i as int));
            if str_eq(self.scope[i].0.as_str(), name) {
                return Some(self.scope[i].1);
            }
        }
        None
    }

    /// Where `name` lives: its stack slot if it is in scope, the global
    /// symbol of that name otherwise.
    pub fn pointer(&self, name: &str) -> (operand: String)
        ensures
            operand@ == self@.pointer(name@),
    {
        match self.slot_of(name) {
            Some(slot) => register_text(slot),
            None => global_text(name),
        }
    }

    /// Records one more string literal and returns the symbol of its constant.
    pub fn intern(&mut self, text: &str) -> (symbol: String)
        ensures
            final(self)@ == old(self)@.intern(text@),
            symbol@ == string_symbol(old(self)@.strings.len()),
            old(self).wf() ==> final(self).wf(),
    {
        let k = self.strings.len();
        self.strings.push(text.to_string());
        assert(texts_view(self.strings@) =~= texts_view(old(self).strings@).push(text@));
        string_symbol_text(k)
    }

    /// Requires the external symbol `name`: if it is not there yet, it is
    /// put in with its declaration where the names stay sorted.
    pub fn require(&mut self, name: &str, declaration: &str)
        ensures
            final(self)@ == old(self)@.require(name@, declaration@),
            old(self).wf() ==> final(self).wf(),
    {
        let ghost all = self@.externals;
        let mut at: usize = 0;
        while at < self.externals.len() && str_lt(self.externals[at].0.as_str(), name)
            invariant
                at <= self.externals.len(),
                *self == *old(self),
                all == externals_view(self.externals@),
                insertion_point(all, name@, 0) == insertion_point(all, name@, at as int),
            decreases self.externals.len() - at,
        {
            at += 1;
        }
        if at < self.externals.len() && str_eq(self.externals[at].0.as_str(), name) {
            return ;
        }
        self.externals.insert(at, (name.to_string(), declaration.to_string()));
        assert(externals_view(self.externals@) =~= all.insert(
            at as int,
            (name@, declaration@),
        ));
    }
}

/// The annotation of the root of `e`.
pub fn annotation_of(e: &Expr) -> (t: &Type)
    requires
        e@.info() is Some,
    ensures
        t@ == annotation(e@),
{
    e.info().type_.as_ref().unwrap()
}

/// Where control goes when the condition before else-if arm `k` fails.
pub fn next_arm_text(id: usize, k: usize, arms: usize) -> (s: String)
    ensures
        s@ == next_arm(id as nat, k as nat, arms as nat),
{
    if k < arms {
        arm_label_text("elif", id, k)
    } else {
        label_text("else", id)
    }
}

impl Generator {
    /// Lowers `e` as a value: emits its instructions and returns the operand
    /// that holds its value.
    pub fn lower(&mut self, e: &Expr) -> (operand: String)
        requires
            old(self).wf(),
            lowerable(e@),
        ensures
            final(self).wf(),
            lower(e@, old(self)@) == (final(self)@, operand@),
            final(self)@.scope == old(self)@.scope,
        decreases *e, 1int,
    {
        match e {
            Expr::Let(name, init, body, info) => self.lower_let(name, init, body, info),
            Expr::Sequence(first, second, info) => self.lower_sequence(first, second, info),
            Expr::If(cond, then, else_ifs, otherwise, info) => self.lower_if(
                cond,
                then,
                else_ifs,
                otherwise,
                info,
            ),
            Expr::For(variable, from, to, body, info) => self.lower_for(
                variable,
                from,
                to,
                body,
                info,
            ),
            Expr::Equal(left, right, _) => {
                proof {
                    assert(decreases_to!(*e => e->Equal_0));
                    assert(decreases_to!(*e => e->Equal_1));
                }
                self.lower_operator(e, left, right)
            },
            Expr::NotEqual(left, right, _) => {
                proof {
                    assert(decreases_to!(*e => e->NotEqual_0));
                    assert(decreases_to!(*e => e->NotEqual_1));
                }
                self.lower_operator(e, left, right)
            },
            Expr::Add(left, right, _) => {
                proof {
                    assert(decreases_to!(*e => e->Add_0));
                    assert(decreases_to!(*e => e->Add_1));
                }
                self.lower_operator(e, left, right)
            },
            Expr::Sub(left, right, _) => {
                proof {
                    assert(decreases_to!(*e => e->Sub_0));
                    assert(decreases_to!(*e => e->Sub_1));
                }
                self.lower_operator(e, left, right)
            },
            Expr::Surplus(left, right, _) => {
                proof {
                    assert(decreases_to!(*e => e->Surplus_0));
                    assert(decreases_to!(*e => e->Surplus_1));
                }
                self.lower_operator(e, left, right)
            },
            Expr::Mult(left, right, _) => {
                proof {
                    assert(decreases_to!(*e => e->Mult_0));
                    assert(decreases_to!(*e => e->Mult_1));
                }
                self.lower_operator(e, left, right)
            },
            Expr::Div(left, right, _) => {
                proof {
                    assert(decreases_to!(*e => e->Div_0));
                    assert(decreases_to!(*e => e->Div_1));
                }
                self.lower_operator(e, left, right)
            },
            Expr::Apply(callee, args, info) => self.lower_apply(callee, args, info),
            Expr::Construct(name, inits, info) => self.lower_construct(name, inits, info),
            Expr::Dot(base, field, info) => self.lower_dot(base, field, info),
            Expr::Assign(target, value, info) => self.lower_assign(target, value, info),
            Expr::Println(arg, info) => self.lower_println(arg, info),
            Expr::Number(n, _) => signed_text(*n),
            Expr::String(text, _) => self.intern(text.as_str()),
            Expr::Identifier(name, _) => match self.slot_of(name.as_str()) {
                Some(slot) => {
                    let pointer = register_text(slot);
                    self.load(annotation_of(e), pointer.as_str())
                },
                None => global_text(name.as_str()),
            },
        }
    }

    /// Lowers `e` where it stands alone in a sequence: a literal is put
    /// through a stack slot.
    pub fn materialize(&mut self, e: &Expr) -> (operand: String)
        requires
            old(self).wf(),
            lowerable(e@),
        ensures
            final(self).wf(),
            materialize(e@, old(self)@) == (final(self)@, operand@),
            final(self)@.scope == old(self)@.scope,
        decreases *e, 2int,
    {
        match e {
            Expr::Number(_, _) => {
                let value = self.lower(e);
                let t = Type::integer();
                let pointer = self.spill(&t, value.as_str());
                self.load(&t, pointer.as_str())
            },
            Expr::String(_, _) => {
                let value = self.lower(e);
                let t = Type::string();
                let pointer = self.spill(&t, value.as_str());
                self.load(&t, pointer.as_str())
            },
            _ => self.lower(e),
        }
    }

    /// Lowers `e` as the target of an assignment and returns a pointer to
    /// where its value lives.
    pub fn address(&mut self, e: &Expr) -> (pointer: String)
        requires
            old(self).wf(),
            lowerable(e@),
        ensures
            final(self).wf(),
            address(e@, old(self)@) == (final(self)@, pointer@),
            final(self)@.scope == old(self)@.scope,
        decreases *e, 2int,
    {
        match e {
            Expr::Identifier(name, _) => self.pointer(name.as_str()),
            Expr::Dot(base, field, _) => {
                proof {
                    assert(decreases_to!(*e => e->Dot_0));
                }
                self.member(base, field.as_str())
            },
            _ => {
                let value = self.lower(e);
                self.spill(annotation_of(e), value.as_str())
            },
        }
    }

    /// Computes the address of the field `field` of the struct that `base`
    /// evaluates to.
    pub fn member(&mut self, base: &Expr, field: &str) -> (pointer: String)
        requires
            old(self).wf(),
            lowerable(base@),
        ensures
            final(self).wf(),
            member(base@, field@, old(self)@) == (final(self)@, pointer@),
            final(self)@.scope == old(self)@.scope,
        decreases *base, 3int,
    {
        let pointer = self.address(base);
        let t = annotation_of(base);
        let index = match t {
            Type::Struct(_, fields) => match Type::field_position(fields, field) {
                Some(i) => i,
                None => 0,
            },
            _ => 0,
        };
        let operation = field_address_text(ir_type_text(t).as_str(), pointer.as_str(), index);
        self.define(operation.as_str())
    }

    fn lower_let(&mut self, name: &String, init: &Expr, body: &Expr, info: &Info) -> (operand:
        String)
        requires
            old(self).wf(),
            lowerable(
                ExprView::Let(name@, Box::new(init@), Box::new(body@), info_view(*info)),
            ),
        ensures
            final(self).wf(),
            lower(
                ExprView::Let(name@, Box::new(init@), Box::new(body@), info_view(*info)),
                old(self)@,
            ) == (final(self)@, operand@),
            final(self)@.scope == old(self)@.scope,
        decreases Expr::Let(*name, Box::new(*init), Box::new(*body), *info), 0int,
    {
        proof {
            reveal_with_fuel(lowerable, 2);
            let whole = Expr::Let(*name, Box::new(*init), Box::new(*body), *info);
            assert(decreases_to!(whole => whole->Let_1));
            assert(decreases_to!(whole => whole->Let_2));
        }
        let value = self.lower(init);
        self.spill(annotation_of(init), value.as_str());
        let slot = self.values;
        self.bind(name.clone(), slot);
        let result = self.lower(body);
        self.unbind();
        assert(self@.scope =~= old(self)@.scope);
        result
    }

    fn lower_sequence(&mut self, first: &Expr, second: &Expr, info: &Info) -> (operand: String)
        requires
            old(self).wf(),
            lowerable(ExprView::Sequence(Box::new(first@), Box::new(second@), info_view(*info))),
        ensures
            final(self).wf(),
            lower(
                ExprView::Sequence(Box::new(first@), Box::new(second@), info_view(*info)),
                old(self)@,
            ) == (final(self)@, operand@),
            final(self)@.scope == old(self)@.scope,
        decreases Expr::Sequence(Box::new(*first), Box::new(*second), *info), 0int,
    {
        proof {
            reveal_with_fuel(lowerable, 2);
            let whole = Expr::Sequence(Box::new(*first), Box::new(*second), *info);
            assert(decreases_to!(whole => whole->Sequence_0));
            assert(decreases_to!(whole => whole->Sequence_1));
        }
        self.materialize(first);
        self.materialize(second)
    }

    fn lower_if(
        &mut self,
        cond: &Expr,
        then: &Expr,
        else_ifs: &Vec<(Expr, Expr)>,
        otherwise: &Expr,
        info: &Info,
    ) -> (operand: String)
        requires
            old(self).wf(),
            lowerable(
                ExprView::If(
                    Box::new(cond@),
                    Box::new(then@),
                    arms_view(else_ifs@),
                    Box::new(otherwise@),
                    info_view(*info),
                ),
            ),
        ensures
            final(self).wf(),
            lower(
                ExprView::If(
                    Box::new(cond@),
                    Box::new(then@),
                    arms_view(else_ifs@),
                    Box::new(otherwise@),
                    info_view(*info),
                ),
                old(self)@,
            ) == (final(self)@, operand@),
            final(self)@.scope == old(self)@.scope,
        decreases
                Expr::If(
                    Box::new(*cond),
                    Box::new(*then),
                    *else_ifs,
                    Box::new(*otherwise),
                    *info,
                ),
                0int,
    {
        proof {
            reveal_with_fuel(lowerable, 2);
            let whole = Expr::If(
                Box::new(*cond),
                Box::new(*then),
                *else_ifs,
                Box::new(*otherwise),
                *info,
            );
            assert(decreases_to!(whole => whole->If_0));
            assert(decreases_to!(whole => whole->If_1));
            assert(decreases_to!(whole => whole->If_2));
            assert(decreases_to!(whole => whole->If_3));
            lemma_lowerable_arms(
                cond@,
                then@,
                arms_view(else_ifs@),
                otherwise@,
                info_view(*info),
            );
            assert forall|i: int| #![trigger else_ifs@[i]] 0 <= i < else_ifs.len() implies lowerable(
                else_ifs@[i].0@,
            ) && lowerable(else_ifs@[i].1@) by {
                assert(arms_view(else_ifs@)[i] == (else_ifs@[i].0@, else_ifs@[i].1@));
            }
        }
        let t = info.type_.as_ref().unwrap();
        let c = self.lower(cond);
        let slot = self.slot(t);
        let id = self.labels;
        let then_label = label_text("then", id);
        let endif_label = label_text("endif", id);
        let else_label = label_text("else", id);
        let next = next_arm_text(id, 0, else_ifs.len());
        self.emit(branch_text(c.as_str(), then_label.as_str(), next.as_str()));
        self.labels = id + 1;
        self.emit(block_text(then_label.as_str()));
        let v = self.lower(then);
        self.store(t, v.as_str(), slot.as_str());
        self.emit(jump_text(endif_label.as_str()));
        self.lower_arms(else_ifs, t, slot.as_str(), id);
        self.emit(block_text(else_label.as_str()));
        let w = self.lower(otherwise);
        self.store(t, w.as_str(), slot.as_str());
        self.emit(jump_text(endif_label.as_str()));
        self.emit(block_text(endif_label.as_str()));
        self.load(t, slot.as_str())
    }

    fn lower_arms(&mut self, arms: &Vec<(Expr, Expr)>, t: &Type, slot: &str, id: usize)
        requires
            old(self).wf(),
            forall|i: int|
                #![trigger arms@[i]]
                0 <= i < arms.len() ==> lowerable(arms@[i].0@) && lowerable(arms@[i].1@),
        ensures
            final(self).wf(),
            final(self)@ == lower_arms(
                arms_view(arms@),
                old(self)@,
                t@,
                slot@,
                id as nat,
                arms.len() as int,
            ),
            final(self)@.scope == old(self)@.scope,
        decreases *arms,
    {
        let endif_label = label_text("endif", id);
        let mut k: usize = 0;
        while k < arms.len()
            invariant
                k <= arms.len(),
                self.wf(),
                forall|i: int|
                    #![trigger arms@[i]]
                    0 <= i < arms.len() ==> lowerable(arms@[i].0@) && lowerable(arms@[i].1@),
                endif_label@ == label("endif"@, id as nat),
                self@ == lower_arms(arms_view(arms@), old(self)@, t@, slot@, id as nat, k as int),
                self@.scope == old(self)@.scope,
            decreases arms.len() - k,
        {
            let arm = &arms[k];
            let then_label = arm_label_text("elif.then", id, k);
            self.emit(block_text(arm_label_text("elif", id, k).as_str()));
            let c = self.lower(&arm.0);
            let next = next_arm_text(id, k + 1, arms.len());
            self.emit(branch_text(c.as_str(), then_label.as_str(), next.as_str()));
            self.emit(block_text(then_label.as_str()));
            let v = self.lower(&arm.1);
            self.store(t, v.as_str(), slot);
            self.emit(jump_text(endif_label.as_str()));
            k += 1;
        }
    }

    fn lower_for(
        &mut self,
        variable: &String,
        from: &Expr,
        to: &Expr,
        body: &Expr,
        info: &Info,
    ) -> (operand: String)
        requires
            old(self).wf(),
            lowerable(
                ExprView::For(
                    variable@,
                    Box::new(from@),
                    Box::new(to@),
                    Box::new(body@),
                    info_view(*info),
                ),
            ),
        ensures
            final(self).wf(),
            lower(
                ExprView::For(
                    variable@,
                    Box::new(from@),
                    Box::new(to@),
                    Box::new(body@),
                    info_view(*info),
                ),
                old(self)@,
            ) == (final(self)@, operand@),
            final(self)@.scope == old(self)@.scope,
        decreases
                Expr::For(*variable, Box::new(*from), Box::new(*to), Box::new(*body), *info),
                0int,
    {
        proof {
            reveal_with_fuel(lowerable, 2);
            let whole = Expr::For(
                *variable,
                Box::new(*from),
                Box::new(*to),
                Box::new(*body),
                *info,
            );
            assert(decreases_to!(whole => whole->For_1));
            assert(decreases_to!(whole => whole->For_2));
            assert(decreases_to!(whole => whole->For_3));
        }
        let t = annotation_of(from);
        let ty = ir_type_text(t);
        let low = self.lower(from);
        let high = self.lower(to);
        let pointer = self.spill(t, low.as_str());
        let slot = self.values;
        let id = self.labels;
        let cond_label = label_text("for.cond", id);
        let body_label = label_text("for.body", id);
        let end_label = label_text("for.end", id);
        self.emit(jump_text(cond_label.as_str()));
        self.labels = id + 1;
        self.emit(block_text(cond_label.as_str()));
        let current = self.load(t, pointer.as_str());
        let test = self.define(
            binary_text("icmp sle", ty.as_str(), current.as_str(), high.as_str()).as_str(),
        );
        self.emit(branch_text(test.as_str(), body_label.as_str(), end_label.as_str()));
        self.emit(block_text(body_label.as_str()));
        self.bind(variable.clone(), slot);
        self.lower(body);
        self.unbind();
        assert(self@.scope =~= old(self)@.scope);
        let reached = self.load(t, pointer.as_str());
        let next = self.define(binary_text("add", ty.as_str(), reached.as_str(), "1").as_str());
        self.store(t, next.as_str(), pointer.as_str());
        self.emit(jump_text(cond_label.as_str()));
        self.emit(block_text(end_label.as_str()));
        "undef".to_string()
    }

    fn lower_operator(&mut self, whole: &Expr, left: &Expr, right: &Expr) -> (operand: String)
        requires
            old(self).wf(),
            lowerable(whole@),
            whole@ matches ExprView::Binary(_, a, b, _) && *a == left@ && *b == right@,
            decreases_to!(*whole => *left),
            decreases_to!(*whole => *right),
        ensures
            final(self).wf(),
            lower(whole@, old(self)@) == (final(self)@, operand@),
            final(self)@.scope == old(self)@.scope,
        decreases *whole, 0int,
    {
        proof {
            reveal_with_fuel(lowerable, 2);
        }
        let a = self.lower(left);
        let b = self.lower(right);
        let ty = ir_type_text(annotation_of(left));
        let operation = binary_text(whole.operand().as_str(), ty.as_str(), a.as_str(), b.as_str());
        self.define(operation.as_str())
    }

    fn lower_apply(&mut self, callee: &Expr, args: &Vec<Expr>, info: &Info) -> (operand: String)
        requires
            old(self).wf(),
            lowerable(ExprView::Apply(Box::new(callee@), exprs_view(args@), info_view(*info))),
        ensures
            final(self).wf(),
            lower(
                ExprView::Apply(Box::new(callee@), exprs_view(args@), info_view(*info)),
                old(self)@,
            ) == (final(self)@, operand@),
            final(self)@.scope == old(self)@.scope,
        decreases Expr::Apply(Box::new(*callee), *args, *info), 0int,
    {
        proof {
            reveal_with_fuel(lowerable, 2);
            let whole = Expr::Apply(Box::new(*callee), *args, *info);
            assert(decreases_to!(whole => whole->Apply_1));
            lemma_lowerable_args(callee@, exprs_view(args@), info_view(*info));
            assert forall|i: int| #![trigger args@[i]] 0 <= i < args.len() implies lowerable(
                args@[i]@,
            ) by {
                assert(exprs_view(args@)[i] == args@[i]@);
            }
        }
        let list = self.lower_args(args);
        let symbol = match callee {
            Expr::Identifier(name, _) => global_text(name.as_str()),
            _ => global_text(""),
        };
        let t = info.type_.as_ref().unwrap();
        if t.same(&Type::unit()) {
            let mut line = "  ".to_string();
            line.append(call_text("void", symbol.as_str(), list.as_str()).as_str());
            self.emit(line);
            "undef".to_string()
        } else {
            let operation = call_text(ir_type_text(t).as_str(), symbol.as_str(), list.as_str());
            self.define(operation.as_str())
        }
    }

    fn lower_args(&mut self, args: &Vec<Expr>) -> (list: String)
        requires
            old(self).wf(),
            forall|i: int| #![trigger args@[i]] 0 <= i < args.len() ==> lowerable(args@[i]@),
        ensures
            final(self).wf(),
            lower_args(exprs_view(args@), old(self)@, args.len() as int) == (final(self)@, list@),
            final(self)@.scope == old(self)@.scope,
        decreases *args,
    {
        let mut list = String::new();
        let mut i: usize = 0;
        while i < args.len()
            invariant
                i <= args.len(),
                self.wf(),
                forall|j: int| #![trigger args@[j]] 0 <= j < args.len() ==> lowerable(args@[j]@),
                lower_args(exprs_view(args@), old(self)@, i as int) == (self@, list@),
                self@.scope == old(self)@.scope,
            decreases args.len() - i,
        {
            let ghost before = list@;
            let arg = &args[i];
            let value = self.lower(arg);
            if i > 0 {
                list.append(", ");
            }
            assert(list@ =~= before + separator(i as int));
            list.append(ir_type_text(annotation_of(arg)).as_str());
            list.append(" ");
            list.append(value.as_str());
            i += 1;
        }
        list
    }

    fn lower_construct(&mut self, name: &String, inits: &Vec<(String, Expr)>, info: &Info) -> (operand:
        String)
        requires
            old(self).wf(),
            lowerable(ExprView::Construct(name@, inits_view(inits@), info_view(*info))),
        ensures
            final(self).wf(),
            lower(
                ExprView::Construct(name@, inits_view(inits@), info_view(*info)),
                old(self)@,
            ) == (final(self)@, operand@),
            final(self)@.scope == old(self)@.scope,
        decreases Expr::Construct(*name, *inits, *info), 0int,
    {
        proof {
            reveal_with_fuel(lowerable, 2);
            let whole = Expr::Construct(*name, *inits, *info);
            assert(decreases_to!(whole => whole->Construct_1));
            lemma_lowerable_inits(name@, inits_view(inits@), info_view(*info));
            assert forall|i: int| #![trigger inits@[i]] 0 <= i < inits.len() implies lowerable(
                inits@[i].1@,
            ) by {
                assert(inits_view(inits@)[i] == (inits@[i].0@, inits@[i].1@));
            }
        }
        let mut ty = "%".to_string();
        ty.append(name.as_str());
        let slot = self.define(alloca_text(ty.as_str(), 8).as_str());
        self.lower_inits(inits, ty.as_str(), slot.as_str());
        self.define(load_text(ty.as_str(), slot.as_str(), 8).as_str())
    }

    fn lower_inits(&mut self, inits: &Vec<(String, Expr)>, ty: &str, slot: &str)
        requires
            old(self).wf(),
            forall|i: int| #![trigger inits@[i]] 0 <= i < inits.len() ==> lowerable(inits@[i].1@),
        ensures
            final(self).wf(),
            final(self)@ == lower_inits(
                inits_view(inits@),
                old(self)@,
                ty@,
                slot@,
                inits.len() as int,
            ),
            final(self)@.scope == old(self)@.scope,
        decreases *inits,
    {
        let mut i: usize = 0;
        while i < inits.len()
            invariant
                i <= inits.len(),
                self.wf(),
                forall|j: int|
                    #![trigger inits@[j]]
                    0 <= j < inits.len() ==> lowerable(inits@[j].1@),
                self@ == lower_inits(inits_view(inits@), old(self)@, ty@, slot@, i as int),
                self@.scope == old(self)@.scope,
            decreases inits.len() - i,
        {
            let init = &inits[i];
            let place = self.define(field_address_text(ty, slot, i).as_str());
            let value = self.lower(&init.1);
            self.store(annotation_of(&init.1), value.as_str(), place.as_str());
            i += 1;
        }
    }

    fn lower_dot(&mut self, base: &Expr, field: &String, info: &Info) -> (operand: String)
        requires
            old(self).wf(),
            lowerable(ExprView::Dot(Box::new(base@), field@, info_view(*info))),
        ensures
            final(self).wf(),
            lower(ExprView::Dot(Box::new(base@), field@, info_view(*info)), old(self)@) == (
                final(self)@,
                operand@,
            ),
            final(self)@.scope == old(self)@.scope,
        decreases Expr::Dot(Box::new(*base), *field, *info), 0int,
    {
        proof {
            reveal_with_fuel(lowerable, 2);
            let whole = Expr::Dot(Box::new(*base), *field, *info);
            assert(decreases_to!(whole => whole->Dot_0));
        }
        let pointer = self.member(base, field.as_str());
        self.load(info.type_.as_ref().unwrap(), pointer.as_str())
    }

    fn lower_assign(&mut self, target: &Expr, value: &Expr, info: &Info) -> (operand: String)
        requires
            old(self).wf(),
            lowerable(ExprView::Assign(Box::new(target@), Box::new(value@), info_view(*info))),
        ensures
            final(self).wf(),
            lower(
                ExprView::Assign(Box::new(target@), Box::new(value@), info_view(*info)),
                old(self)@,
            ) == (final(self)@, operand@),
            final(self)@.scope == old(self)@.scope,
        decreases Expr::Assign(Box::new(*target), Box::new(*value), *info), 0int,
    {
        proof {
            reveal_with_fuel(lowerable, 2);
            let whole = Expr::Assign(Box::new(*target), Box::new(*value), *info);
            assert(decreases_to!(whole => whole->Assign_0));
            assert(decreases_to!(whole => whole->Assign_1));
        }
        let v = self.lower(value);
        let pointer = self.address(target);
        self.store(annotation_of(value), v.as_str(), pointer.as_str());
        v
    }

    fn lower_println(&mut self, arg: &Expr, info: &Info) -> (operand: String)
        requires
            old(self).wf(),
            lowerable(ExprView::Println(Box::new(arg@), info_view(*info))),
        ensures
            final(self).wf(),
            lower(ExprView::Println(Box::new(arg@), info_view(*info)), old(self)@) == (
                final(self)@,
                operand@,
            ),
            final(self)@.scope == old(self)@.scope,
        decreases Expr::Println(Box::new(*arg), *info), 0int,
    {
        proof {
            reveal_with_fuel(lowerable, 2);
            let whole = Expr::Println(Box::new(*arg), *info);
            assert(decreases_to!(whole => whole->Println_0));
        }
        self.require("puts", "declare i32 @puts(ptr)");
        let v = self.lower(arg);
        let mut passed = "ptr ".to_string();
        passed.append(v.as_str());
        let symbol = global_text("puts");
        self.define(call_text("i32", symbol.as_str(), passed.as_str()).as_str());
        "undef".to_string()
    }
}

/// The line that opens the definition of `f`.
pub fn header_text(f: &Function) -> (s: String)
    ensures
        s@ == header(f@),
{
    let mut params = String::new();
    let mut i: usize = 0;
    while i < f.args.len()
        invariant
            i <= f.args.len(),
            params@ == params_text(fields_view(f.args@), i as int),
        decreases f.args.len() - i,
    {
        let ghost before = params@;
        if i > 0 {
            params.append(", ");
        }
        assert(params@ =~= before + separator(i as int));
        params.append(ir_type_text(&f.args[i].1).as_str());
        params.append(" %");
        params.append(f.args[i].0.as_str());
        i += 1;
    }
    let mut s = "define ".to_string();
    s.append(ir_return_type_text(&f.return_type).as_str());
    s.append(" @");
    s.append(f.name.as_str());
    s.append("(");
    s.append(params.as_str());
    s.append(") {");
    s
}

/// The type declaration of the struct `name` with the given fields.
pub fn struct_line_text(name: &str, fields: &Vec<(String, Type)>) -> (s: String)
    ensures
        s@ == struct_line((name@, fields_view(fields@))),
{
    let mut types = String::new();
    let mut i: usize = 0;
    while i < fields.len()
        invariant
            i <= fields.len(),
            types@ == field_types(fields_view(fields@), i as int),
        decreases fields.len() - i,
    {
        let ghost before = types@;
        if i > 0 {
            types.append(", ");
        }
        assert(types@ =~= before + separator(i as int));
        types.append(ir_type_text(&fields[i].1).as_str());
        i += 1;
    }
    let mut s = "%".to_string();
    s.append(name);
    s.append(" = type { ");
    s.append(types.as_str());
    s.append(" }");
    s
}

/// The constant that holds string literal number `k`.
pub fn string_constant_text(k: usize, text: &str) -> (s: String)
    ensures
        s@ == string_constant(k as nat, text@),
{
    let bytes = text.as_bytes();
    let mut list = String::new();
    let mut i: usize = 0;
    while i < bytes.len()
        invariant
            i <= bytes.len(),
            list@ == bytes_text(bytes@, i as int),
        decreases bytes.len() - i,
    {
        list.append("i8 ");
        list.append(decimal_text(bytes[i] as u128).as_str());
        list.append(", ");
        i += 1;
    }
    let mut s = string_symbol_text(k);
    s.append(" = private constant [");
    s.append(decimal_text(bytes.len() as u128 + 1).as_str());
    s.append(" x i8] [");
    s.append(list.as_str());
    s.append("i8 0]");
    s
}

/// Joins lines into one text, each line ended by a line feed.
pub fn join_lines(lines: &Vec<String>) -> (text: String)
    ensures
        text@ == concat_lines(texts_view(lines@), lines.len() as int),
{
    let mut text = String::new();
    let mut i: usize = 0;
    while i < lines.len()
        invariant
            i <= lines.len(),
            text@ == concat_lines(texts_view(lines@), i as int),
        decreases lines.len() - i,
    {
        text.append(lines[i].as_str());
        text.append("\n");
        i += 1;
    }
    text
}

impl Generator {
    /// Emits the definition of `f`. Values are numbered anew, and the scope
    /// holds the parameters of `f` and nothing else while its body is lowered.
    pub fn lower_function(&mut self, f: &Function)
        requires
            old(self).labels <= old(self).lines.len(),
            lowerable(f@.body),
        ensures
            final(self)@ == lower_function(f@, old(self)@),
            final(self).labels <= final(self).lines.len(),
    {
        self.lines.push(header_text(f));
        self.values = 0;
        self.scope = Vec::new();
        assert(texts_view(self.lines@) =~= texts_view(old(self).lines@).push(header(f@)));
        assert(scope_view(self.scope@) =~= Seq::empty());
        self.emit(block_text("entry"));
        let ghost opened = self@;
        let mut i: usize = 0;
        while i < f.args.len()
            invariant
                i <= f.args.len(),
                self.wf(),
                self@ == lower_params(fields_view(f.args@), opened, i as int),
            decreases f.args.len() - i,
        {
            let mut incoming = "%".to_string();
            incoming.append(f.args[i].0.as_str());
            self.spill(&f.args[i].1, incoming.as_str());
            let slot = self.values;
            self.bind(f.args[i].0.clone(), slot);
            i += 1;
        }
        let value = self.lower(&f.body);
        self.emit(ret_text(&f.return_type, value.as_str()));
        self.emit("}".to_string());
        self.scope = Vec::new();
        assert(scope_view(self.scope@) =~= Seq::empty());
    }
}

/// Generates the intermediate representation of a checked program: one type
/// declaration per struct, in declared order; one definition per function, in
/// source order; one declaration per required external symbol, sorted by
/// name; and one constant per string literal, in the order met.
pub fn code_generate(program: &Program) -> (text: String)
    requires
        lowerable_program(program@),
    ensures
        text@ == ir_text(program@),
{
    let mut g = Generator::new();
    let mut i: usize = 0;
    assert(g@.lines =~= Seq::empty());
    while i < program.structs.len()
        invariant
            i <= program.structs.len(),
            g.values == 0,
            g.labels == 0,
            g@.scope.len() == 0,
            g@.externals.len() == 0,
            g@.strings.len() == 0,
            g@.lines == Seq::new(i as nat, |k: int| struct_line(program@.structs[k])),
        decreases program.structs.len() - i,
    {
        let ghost before = g@.lines;
        let line = struct_line_text(program.structs[i].0.as_str(), &program.structs[i].1);
        g.emit(line);
        assert(g@.lines =~= Seq::new((i + 1) as nat, |k: int| struct_line(program@.structs[k])));
        i += 1;
    }
    let ghost start = g@;
    assert(start == GenView {
        lines: Seq::new(program@.structs.len(), |k: int| struct_line(program@.structs[k])),
        values: 0,
        labels: 0,
        scope: Seq::empty(),
        externals: Seq::empty(),
        strings: Seq::empty(),
    }) by {
        assert(start.scope =~= Seq::empty());
        assert(start.externals =~= Seq::empty());
        assert(start.strings =~= Seq::empty());
    }
    let mut n: usize = 0;
    while n < program.functions.len()
        invariant
            n <= program.functions.len(),
            lowerable_program(program@),
            g.labels <= g.lines.len(),
            g@ == lower_functions(program@.functions, start, n as int),
        decreases program.functions.len() - n,
    {
        assert(lowerable((program@.functions[n as int]).body));
        g.lower_function(&program.functions[n]);
        n += 1;
    }
    assert(g@ == generated(program@));
    let ghost done = g@;
    let mut lines = g.lines;
    let mut e: usize = 0;
    assert(texts_view(lines@) =~= done.lines + Seq::new(0, |k: int| done.externals[k].1));
    while e < g.externals.len()
        invariant
            e <= g.externals.len(),
            done.externals == externals_view(g.externals@),
            texts_view(lines@) == done.lines + Seq::new(e as nat, |k: int| done.externals[k].1),
        decreases g.externals.len() - e,
    {
        let ghost shown = texts_view(lines@);
        lines.push(g.externals[e].1.clone());
        assert(texts_view(lines@) =~= shown.push(g.externals@[e as int].1@));
        assert(done.externals[e as int].1 == g.externals@[e as int].1@);
        assert(texts_view(lines@) =~= done.lines + Seq::new(
            (e + 1) as nat,
            |k: int| done.externals[k].1,
        ));
        e += 1;
    }
    let ghost declared = texts_view(lines@);
    let mut k: usize = 0;
    assert(texts_view(lines@) =~= declared + Seq::new(
        0,
        |j: int| string_constant(j as nat, done.strings[j]),
    ));
    while k < g.strings.len()
        invariant
            k <= g.strings.len(),
            done.strings == texts_view(g.strings@),
            texts_view(lines@) == declared + Seq::new(
                k as nat,
                |j: int| string_constant(j as nat, done.strings[j]),
            ),
        decreases g.strings.len() - k,
    {
        let ghost shown = texts_view(lines@);
        lines.push(string_constant_text(k, g.strings[k].as_str()));
        assert(texts_view(lines@) =~= shown.push(string_constant(k as nat, g.strings@[k as int]@)));
        assert(done.strings[k as int] == g.strings@[k as int]@);
        assert(texts_view(lines@) =~= declared + Seq::new(
            (k + 1) as nat,
            |j: int| string_constant(j as nat, done.strings[j]),
        ));
        k += 1;
    }
    assert(texts_view(lines@) =~= ir_lines(program@));
    join_lines(&lines)
}

/// Whether `t` is a struct type with a field called `field`.
pub fn type_has_field(t: &Type, field: &str) -> (yes: bool)
    ensures
        yes == has_field(t@, field@),
{
    match t {
        Type::Struct(_, fields) => Type::field_position(fields, field).is_some(),
        _ => false,
    }
}

/// Whether the generator can lower `e`.
pub fn is_lowerable(e: &Expr) -> (yes: bool)
    ensures
        yes == lowerable(e@),
    decreases *e,
{
    if e.info().type_.is_none() {
        return false;
    }
    match e {
        Expr::Let(_, init, body, _) => is_lowerable(init) && is_lowerable(body),
        Expr::Sequence(first, second, _) => is_lowerable(first) && is_lowerable(second),
        Expr::If(cond, then, else_ifs, otherwise, _) => {
            let arms = are_lowerable_arms(else_ifs);
            proof {
                if lowerable(e@) {
                    lemma_lowerable_arms(
                        cond@,
                        then@,
                        arms_view(else_ifs@),
                        otherwise@,
                        e@.info(),
                    );
                }
            }
            is_lowerable(cond) && is_lowerable(then) && arms && is_lowerable(otherwise)
        },
        Expr::For(_, from, to, body, _) => is_lowerable(from) && is_lowerable(to) && is_lowerable(
            body,
        ),
        Expr::Equal(left, right, _)
        | Expr::NotEqual(left, right, _)
        | Expr::Add(left, right, _)
        | Expr::Sub(left, right, _)
        | Expr::Surplus(left, right, _)
        | Expr::Mult(left, right, _)
        | Expr::Div(left, right, _) => is_lowerable(left) && is_lowerable(right),
        Expr::Apply(callee, args, _) => {
            let named = match **callee {
                Expr::Identifier(_, _) => true,
                _ => false,
            };
            let rest = are_lowerable(args);
            proof {
                if lowerable(e@) {
                    lemma_lowerable_args(callee@, exprs_view(args@), e@.info());
                }
            }
            named && rest
        },
        Expr::Construct(name, inits, _) => {
            let all = are_lowerable_inits(inits);
            proof {
                if lowerable(e@) {
                    lemma_lowerable_inits(name@, inits_view(inits@), e@.info());
                }
            }
            all
        },
        Expr::Dot(base, field, _) => {
            if !is_lowerable(base) {
                return false;
            }
            type_has_field(annotation_of(base), field.as_str())
        },
        Expr::Assign(target, value, _) => is_lowerable(target) && is_lowerable(value),
        Expr::Println(arg, _) => is_lowerable(arg),
        Expr::Number(_, _) => true,
        Expr::String(_, _) => true,
        Expr::Identifier(_, _) => true,
    }
}

/// Whether the generator can lower every expression of `list`.
pub fn are_lowerable(list: &Vec<Expr>) -> (yes: bool)
    ensures
        yes == forall|i: int|
            #![trigger exprs_view(list@)[i]]
            0 <= i < list.len() ==> lowerable(exprs_view(list@)[i]),
    decreases *list,
{
    let mut i: usize = 0;
    while i < list.len()
        invariant
            i <= list.len(),
            forall|j: int|
                #![trigger exprs_view(list@)[j]]
                0 <= j < i ==> lowerable(exprs_view(list@)[j]),
        decreases list.len() - i,
    {
        if !is_lowerable(&list[i]) {
            assert(!lowerable(exprs_view(list@)[i as int]));
            return false;
        }
        i += 1;
    }
    true
}

/// Whether the generator can lower the condition and the body of every
/// else-if arm of `list`.
pub fn are_lowerable_arms(list: &Vec<(Expr, Expr)>) -> (yes: bool)
    ensures
        yes == forall|i: int|
            #![trigger arms_view(list@)[i]]
            0 <= i < list.len() ==> lowerable(arms_view(list@)[i].0) && lowerable(
                arms_view(list@)[i].1,
            ),
    decreases *list,
{
    let mut i: usize = 0;
    while i < list.len()
        invariant
            i <= list.len(),
            forall|j: int|
                #![trigger arms_view(list@)[j]]
                0 <= j < i ==> lowerable(arms_view(list@)[j].0) && lowerable(
                    arms_view(list@)[j].1,
                ),
        decreases list.len() - i,
    {
        if !is_lowerable(&list[i].0) || !is_lowerable(&list[i].1) {
            assert(!(lowerable(arms_view(list@)[i as int].0) && lowerable(
                arms_view(list@)[i as int].1,
            )));
            return false;
        }
        i += 1;
    }
    true
}

/// Whether the generator can lower every field initializer of `list`.
pub fn are_lowerable_inits(list: &Vec<(String, Expr)>) -> (yes: bool)
    ensures
        yes == forall|i: int|
            #![trigger inits_view(list@)[i]]
            0 <= i < list.len() ==> lowerable(inits_view(list@)[i].1),
    decreases *list,
{
    let mut i: usize = 0;
    while i < list.len()
        invariant
            i <= list.len(),
            forall|j: int|
                #![trigger inits_view(list@)[j]]
                0 <= j < i ==> lowerable(inits_view(list@)[j].1),
        decreases list.len() - i,
    {
        if !is_lowerable(&list[i].1) {
            assert(!lowerable(inits_view(list@)[i as int].1));
            return false;
        }
        i += 1;
    }
    true
}

/// Whether the generator can lower every function body of `program`.
pub fn is_lowerable_program(program: &Program) -> (yes: bool)
    ensures
        yes == lowerable_program(program@),
{
    let mut i: usize = 0;
    while i < program.functions.len()
        invariant
            i <= program.functions.len(),
            forall|j: int| 0 <= j < i ==> lowerable((#[trigger] program@.functions[j]).body),
        decreases program.functions.len() - i,
    {
        if !is_lowerable(&program.functions[i].body) {
            assert(!lowerable(program@.functions[i as int].body));
            return false;
        }
        i += 1;
    }
    true
}

/// Whether every call in `e` names its callee: the callee of each `Apply`
/// is a bare identifier.
pub open spec fn direct_calls(e: ExprView) -> bool
    decreases e,
{
    match e {
        ExprView::Let(_, init, body, _) => direct_calls(*init) && direct_calls(*body),
        ExprView::Sequence(first, second, _) => direct_calls(*first) && direct_calls(*second),
        ExprView::If(cond, then, else_ifs, otherwise, _) => {
            &&& direct_calls(*cond)
            &&& direct_calls(*then)
            &&& forall|i: int|
                #![trigger else_ifs[i]]
                0 <= i < else_ifs.len() ==> direct_calls(else_ifs[i].0) && direct_calls(
                    else_ifs[i].1,
                )
            &&& direct_calls(*otherwise)
        },
        ExprView::For(_, from, to, body, _) => direct_calls(*from) && direct_calls(*to)
            && direct_calls(*body),
        ExprView::Binary(_, left, right, _) => direct_calls(*left) && direct_calls(*right),
        ExprView::Apply(callee, args, _) => {
            &&& *callee is Identifier
            &&& forall|i: int| #![trigger args[i]] 0 <= i < args.len() ==> direct_calls(args[i])
        },
        ExprView::Construct(_, inits, _) => forall|i: int|
            #![trigger inits[i]]
            0 <= i < inits.len() ==> direct_calls(inits[i].1),
        ExprView::Dot(base, _, _) => direct_calls(*base),
        ExprView::Assign(target, value, _) => direct_calls(*target) && direct_calls(*value),
        ExprView::Println(arg, _) => direct_calls(*arg),
        ExprView::Number(_, _) => true,
        ExprView::String(_, _) => true,
        ExprView::Identifier(_, _) => true,
    }
}

/// The annotated tree carries at its root the type that the typing rules give.
pub proof fn lemma_annotation_of_annotated(e: ExprView, env: EnvView)
    ensures
        annotate(e, env).info() == resolved(e, env),
        annotate(e, env) is Identifier == e is Identifier,
{
}

/// A checked tree in which every call names its callee can be lowered: the
/// generator never meets a missing annotation, a computed callee, or a field
/// access whose base is not annotated with a struct that has the field.
pub proof fn lemma_checked_tree_is_lowerable(e: ExprView, env: EnvView)
    requires
        type_of(e, env) is Ok,
        direct_calls(e),
    ensures
        lowerable(annotate(e, env)),
    decreases e,
{
    match e {
        ExprView::Let(name, init, body, _) => {
            lemma_checked_tree_is_lowerable(*init, env);
            lemma_checked_tree_is_lowerable(*body, inner_env(env, name, *init));
        },
        ExprView::Sequence(first, second, _) => {
            lemma_checked_tree_is_lowerable(*first, env);
            lemma_checked_tree_is_lowerable(*second, env);
        },
        ExprView::If(cond, then, else_ifs, otherwise, _) => {
            lemma_checked_tree_is_lowerable(*cond, env);
            lemma_checked_tree_is_lowerable(*then, env);
            lemma_checked_tree_is_lowerable(*otherwise, env);
            let t = type_of(*then, env)->Ok_0;
            lemma_arms_each_checked(else_ifs, env, t, else_ifs.len() as int);
            let after = annotate_arms(else_ifs, env);
            assert forall|i: int| #![trigger after[i]] 0 <= i < after.len() implies lowerable(
                after[i].0,
            ) && lowerable(after[i].1) by {
                assert(arm_failure(else_ifs[i], env, t) is None);
                lemma_checked_tree_is_lowerable(else_ifs[i].0, env);
                lemma_checked_tree_is_lowerable(else_ifs[i].1, env);
            }
        },
        ExprView::For(variable, from, to, body, _) => {
            lemma_checked_tree_is_lowerable(*from, env);
            lemma_checked_tree_is_lowerable(*to, env);
            lemma_checked_tree_is_lowerable(*body, inner_env(env, variable, *from));
        },
        ExprView::Binary(_, left, right, _) => {
            lemma_checked_tree_is_lowerable(*left, env);
            lemma_checked_tree_is_lowerable(*right, env);
        },
        ExprView::Apply(callee, args, _) => {
            lemma_annotation_of_annotated(*callee, env);
            lemma_args_each_checked(args, env, args.len() as int);
            let after = annotate_all(args, env);
            assert forall|i: int| #![trigger after[i]] 0 <= i < after.len() implies lowerable(
                after[i],
            ) by {
                assert(type_of(args[i], env) is Ok);
                lemma_checked_tree_is_lowerable(args[i], env);
            }
        },
        ExprView::Construct(_, inits, _) => {
            lemma_inits_each_checked(inits, env, inits.len() as int);
            let after = annotate_inits(inits, env);
            assert forall|i: int| #![trigger after[i]] 0 <= i < after.len() implies lowerable(
                after[i].1,
            ) by {
                assert(type_of(inits[i].1, env) is Ok);
                lemma_checked_tree_is_lowerable(inits[i].1, env);
            }
        },
        ExprView::Dot(base, _, _) => {
            lemma_checked_tree_is_lowerable(*base, env);
            lemma_annotation_of_annotated(*base, env);
        },
        ExprView::Assign(target, value, _) => {
            lemma_checked_tree_is_lowerable(*target, env);
            lemma_checked_tree_is_lowerable(*value, env);
        },
        ExprView::Println(arg, _) => {
            lemma_checked_tree_is_lowerable(*arg, env);
        },
        ExprView::Number(_, _) => {},
        ExprView::String(_, _) => {},
        ExprView::Identifier(_, _) => {},
    }
}

/// A program that checks, and in which every call names its callee, can be
/// generated once it is annotated.
pub proof fn lemma_checked_program_is_lowerable(p: ProgramView)
    requires
        check_failure(p) is None,
        forall|i: int| 0 <= i < p.functions.len() ==> direct_calls((#[trigger] p.functions[i]).body),
    ensures
        lowerable_program(annotate_program(p)),
{
    lemma_functions_each_checked(p, p.functions.len() as int);
    assert forall|i: int| 0 <= i < annotate_program(p).functions.len() implies lowerable(
        (#[trigger] annotate_program(p).functions[i]).body,
    ) by {
        assert(function_failure(p, p.functions[i]) is None);
        lemma_checked_tree_is_lowerable(p.functions[i].body, function_env(p, p.functions[i]));
    }
}

/// What a check of `before` may leave behind: on success the annotated
/// program, otherwise the first violation.
pub open spec fn check_outcome(
    before: ProgramView,
    after: ProgramView,
    r: Result<(), CheckErrorView>,
) -> bool {
    match r {
        Ok(_) => check_failure(before) is None && after == annotate_program(before),
        Err(err) => check_failure(before) == Some(err),
    }
}

/// Determinism: checking and generating the same program twice gives the
/// same result both times. Of any two runs on one program, either both
/// report the same violation, or both succeed, leave the same annotated
/// program behind and generate the same text.
pub proof fn lemma_check_and_generate_are_deterministic(
    before: ProgramView,
    first: ProgramView,
    first_result: Result<(), CheckErrorView>,
    first_text: Seq<char>,
    second: ProgramView,
    second_result: Result<(), CheckErrorView>,
    second_text: Seq<char>,
)
    requires
        check_outcome(before, first, first_result),
        check_outcome(before, second, second_result),
        first_result is Ok ==> first_text == ir_text(first),
        second_result is Ok ==> second_text == ir_text(second),
    ensures
        first_result == second_result,
        first_result is Ok ==> first == second && first_text == second_text,
{
    if first_result is Ok {
        assert(first_result->Ok_0 == second_result->Ok_0);
    }
}

} // verus!
