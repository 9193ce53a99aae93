//! Laws of the code generator: what one lowering step never undoes. The
//! value counter and the label counter only grow, lines and string literals
//! are only added at the end, the scope is the same after an expression as
//! before it, and the external symbols stay sorted by name without
//! repetition.

use vstd::prelude::*;
use crate::codegen::{
    address, annotation, generated, header, insertion_point, lower, lower_args, lower_arms,
    lower_function, lower_functions, lower_inits, lower_params, materialize, member, next_arm,
    required, struct_line, GenView,
};
use crate::expr::ExprView;
use crate::function::FunctionView;
use crate::ir::{
    alloca, arm_label, binary, block, branch, field_address, ir_type, jump, label, register,
};
use crate::program::ProgramView;
use crate::text::{decimal, digit, lex_lt};
use crate::type_::TypeView;

verus! {

/// A digit is one character, and different digits are different characters.
pub proof fn lemma_digits_differ(a: nat, b: nat)
    requires
        a < 10,
        b < 10,
    ensures
        digit(a).len() == 1,
        digit(a)[0] == digit(b)[0] ==> a == b,
{
    reveal_strlit("0");
    reveal_strlit("1");
    reveal_strlit("2");
    reveal_strlit("3");
    reveal_strlit("4");
    reveal_strlit("5");
    reveal_strlit("6");
    reveal_strlit("7");
    reveal_strlit("8");
    reveal_strlit("9");
}

/// A numeral has as many characters as the number has digits: one for a
/// number below ten, more than one for any other.
pub proof fn lemma_decimal_len(n: nat)
    ensures
        decimal(n).len() >= 1,
        n >= 10 ==> decimal(n).len() >= 2,
    decreases n,
{
    lemma_digits_differ(n % 10, 0);
    if n >= 10 {
        lemma_decimal_len(n / 10);
    }
}

/// Different numbers have different numerals.
pub proof fn lemma_decimal_injective(a: nat, b: nat)
    requires
        decimal(a) == decimal(b),
    ensures
        a == b,
    decreases a,
{
    lemma_decimal_len(a);
    lemma_decimal_len(b);
    lemma_digits_differ(a % 10, b % 10);
    lemma_digits_differ(b % 10, a % 10);
    if a >= 10 && b >= 10 {
        let x = decimal(a / 10);
        let y = decimal(b / 10);
        assert((x + digit(a % 10)).last() == digit(a % 10)[0]);
        assert((y + digit(b % 10)).last() == digit(b % 10)[0]);
        assert((x + digit(a % 10)).drop_last() =~= x);
        assert((y + digit(b % 10)).drop_last() =~= y);
        lemma_decimal_injective(a / 10, b / 10);
    }
}

/// Different values are held in different registers.
pub proof fn lemma_registers_differ(a: nat, b: nat)
    requires
        register(a) == register(b),
    ensures
        a == b,
{
    reveal_strlit("%");
    assert(register(a).subrange(1, register(a).len() as int) =~= decimal(a));
    assert(register(b).subrange(1, register(b).len() as int) =~= decimal(b));
    lemma_decimal_injective(a, b);
}

/// Constructs with different numbers have different labels of every stem.
pub proof fn lemma_labels_differ(stem: Seq<char>, a: nat, b: nat)
    requires
        label(stem, a) == label(stem, b),
    ensures
        a == b,
{
    let n = stem.len() + "."@.len();
    assert(label(stem, a).subrange(n as int, label(stem, a).len() as int) =~= decimal(a));
    assert(label(stem, b).subrange(n as int, label(stem, b).len() as int) =~= decimal(b));
    lemma_decimal_injective(a, b);
}

/// Every `If` and every `For` takes a label number of its own: it is lowered
/// with a number that no construct before it has, and leaves a higher one to
/// those that follow.
pub proof fn lemma_constructs_take_fresh_labels(e: ExprView, g: GenView)
    requires
        e is If || e is For,
    ensures
        g.labels < lower(e, g).0.labels,
{
    lemma_steps_grow();
    match e {
        ExprView::If(cond, then, else_ifs, otherwise, _) => {
            let t = annotation(e);
            let (g1, c) = lower(*cond, g);
            lemma_lower_extends(*cond, g);
            let g2 = g1.slot(t);
            let slot = g2.last();
            let id = g2.labels;
            let g3 = g2.emit(
                branch(c, label("then"@, id), next_arm(id, 0, else_ifs.len())),
            ).next_label().emit(block(label("then"@, id)));
            let (g4, v) = lower(*then, g3);
            lemma_lower_extends(*then, g3);
            let g5 = g4.store(t, v, slot).emit(jump(label("endif"@, id)));
            let g6 = lower_arms(else_ifs, g5, t, slot, id, else_ifs.len() as int);
            lemma_lower_arms_extends(else_ifs, g5, t, slot, id, else_ifs.len() as int);
            let g7 = g6.emit(block(label("else"@, id)));
            lemma_lower_extends(*otherwise, g7);
        },
        ExprView::For(variable, from, to, body, _) => {
            let t = annotation(*from);
            let (g1, low) = lower(*from, g);
            lemma_lower_extends(*from, g);
            let (g2, high) = lower(*to, g1);
            lemma_lower_extends(*to, g1);
            let g3 = g2.spill(t, low);
            let slot = g3.values;
            let id = g3.labels;
            let g4 = g3.emit(jump(label("for.cond"@, id))).next_label().emit(
                block(label("for.cond"@, id)),
            ).load(t, register(slot));
            let g5 = g4.define(binary("icmp sle"@, ir_type(t), g4.last(), high));
            let g6 = g5.emit(
                branch(g5.last(), label("for.body"@, id), label("for.end"@, id)),
            ).emit(block(label("for.body"@, id)));
            lemma_lower_extends(*body, g6.bind(variable, slot));
        },
        _ => {},
    }
}

/// Whether the names of `externals` are strictly ascending: sorted, and no
/// name twice.
pub open spec fn ascending(externals: Seq<(Seq<char>, Seq<char>)>) -> bool {
    forall|i: int, j: int|
        0 <= i < j < externals.len() ==> lex_lt(
            (#[trigger] externals[i]).0,
            (#[trigger] externals[j]).0,
        )
}

/// Whether the state `h` may come after the state `g`: nothing that `g`
/// holds is lost or changed, apart from the scope.
pub open spec fn grows(g: GenView, h: GenView) -> bool {
    &&& g.lines.is_prefix_of(h.lines)
    &&& g.strings.is_prefix_of(h.strings)
    &&& g.values <= h.values
    &&& g.labels <= h.labels
    &&& ascending(g.externals) ==> ascending(h.externals)
}

/// Whether `h` may come after `g` with the scope that `g` has.
pub open spec fn extends(g: GenView, h: GenView) -> bool {
    grows(g, h) && h.scope == g.scope
}

/// No text comes before itself.
pub proof fn lemma_lex_lt_irreflexive(a: Seq<char>)
    ensures
        !lex_lt(a, a),
    decreases a.len(),
{
    if a.len() > 0 {
        lemma_lex_lt_irreflexive(a.drop_first());
    }
}

/// Ascending names are distinct: no external symbol stands twice.
pub proof fn lemma_ascending_names_differ(externals: Seq<(Seq<char>, Seq<char>)>)
    requires
        ascending(externals),
    ensures
        forall|i: int, j: int|
            0 <= i < j < externals.len() ==> (#[trigger] externals[i]).0 != (
            #[trigger] externals[j]).0,
{
    assert forall|i: int, j: int| 0 <= i < j < externals.len() implies (#[trigger] externals[i]).0
        != (#[trigger] externals[j]).0 by {
        lemma_lex_lt_irreflexive(externals[i].0);
    }
}

/// The order of texts is transitive.
pub proof fn lemma_lex_lt_transitive(a: Seq<char>, b: Seq<char>, c: Seq<char>)
    requires
        lex_lt(a, b),
        lex_lt(b, c),
    ensures
        lex_lt(a, c),
    decreases a.len(),
{
    if a.len() > 0 && b.len() > 0 && c.len() > 0 && a[0] == b[0] && b[0] == c[0] {
        lemma_lex_lt_transitive(a.drop_first(), b.drop_first(), c.drop_first());
    }
}

/// Of two different texts one comes before the other.
pub proof fn lemma_lex_lt_total(a: Seq<char>, b: Seq<char>)
    requires
        a != b,
    ensures
        lex_lt(a, b) || lex_lt(b, a),
    decreases a.len(),
{
    if a.len() == 0 || b.len() == 0 {
        if a.len() == 0 && b.len() == 0 {
            assert(a =~= b);
        }
    } else if a[0] == b[0] {
        if a.drop_first() == b.drop_first() {
            assert(a =~= seq![a[0]] + a.drop_first());
            assert(b =~= seq![b[0]] + b.drop_first());
        }
        lemma_lex_lt_total(a.drop_first(), b.drop_first());
    }
}

/// Every name before the insertion point comes before `name`, and the name
/// at the insertion point does not.
pub proof fn lemma_insertion_point(externals: Seq<(Seq<char>, Seq<char>)>, name: Seq<char>, from: int)
    requires
        0 <= from <= externals.len(),
    ensures
        from <= insertion_point(externals, name, from) <= externals.len(),
        forall|j: int|
            from <= j < insertion_point(externals, name, from) ==> lex_lt(
                (#[trigger] externals[j]).0,
                name,
            ),
        insertion_point(externals, name, from) < externals.len() ==> !lex_lt(
            externals[insertion_point(externals, name, from)].0,
            name,
        ),
    decreases externals.len() - from,
{
    if from < externals.len() && lex_lt(externals[from].0, name) {
        lemma_insertion_point(externals, name, from + 1);
    }
}

/// Requiring a symbol keeps the names sorted and without repetition.
pub proof fn lemma_required_stays_ascending(
    externals: Seq<(Seq<char>, Seq<char>)>,
    name: Seq<char>,
    declaration: Seq<char>,
)
    requires
        ascending(externals),
    ensures
        ascending(required(externals, name, declaration)),
{
    let at = insertion_point(externals, name, 0);
    lemma_insertion_point(externals, name, 0);
    if !(at < externals.len() && externals[at].0 == name) {
        let after = externals.insert(at, (name, declaration));
        assert forall|i: int, j: int| 0 <= i < j < after.len() implies lex_lt(
            (#[trigger] after[i]).0,
            (#[trigger] after[j]).0,
        ) by {
            if j < at {
                assert(after[i] == externals[i] && after[j] == externals[j]);
            } else if j == at {
                assert(after[i] == externals[i]);
            } else {
                assert(after[j] == externals[j - 1]);
                if i != at {
                    if i < at {
                        assert(after[i] == externals[i]);
                    } else {
                        assert(after[i] == externals[i - 1]);
                    }
                } else {
                    lemma_lex_lt_total(externals[at].0, name);
                    if j - 1 > at {
                        assert(lex_lt(externals[at].0, externals[j - 1].0));
                        lemma_lex_lt_transitive(name, externals[at].0, externals[j - 1].0);
                    }
                }
            }
        }
    }
}

/// A state may come after itself, and what may come after a later state may
/// come after an earlier one.
pub proof fn lemma_grows_transitive(g: GenView, h: GenView, k: GenView)
    requires
        grows(g, h),
        grows(h, k),
    ensures
        grows(g, k),
{
}

/// The single steps of the generator only add.
pub proof fn lemma_steps_grow()
    ensures
        forall|g: GenView| #[trigger] grows(g, g),
        forall|g: GenView, line: Seq<char>| grows(g, #[trigger] g.emit(line)),
        forall|g: GenView, operation: Seq<char>| grows(g, #[trigger] g.define(operation)),
        forall|g: GenView, t: TypeView| grows(g, #[trigger] g.slot(t)),
        forall|g: GenView, t: TypeView, pointer: Seq<char>| grows(g, #[trigger] g.load(t, pointer)),
        forall|g: GenView, t: TypeView, value: Seq<char>, pointer: Seq<char>|
            grows(g, #[trigger] g.store(t, value, pointer)),
        forall|g: GenView, t: TypeView, value: Seq<char>| grows(g, #[trigger] g.spill(t, value)),
        forall|g: GenView, name: Seq<char>, slot: nat| grows(g, #[trigger] g.bind(name, slot)),
        forall|g: GenView| grows(g, #[trigger] g.unbind()),
        forall|g: GenView| grows(g, #[trigger] g.next_label()),
        forall|g: GenView, text: Seq<char>| grows(g, #[trigger] g.intern(text)),
        forall|g: GenView, name: Seq<char>, declaration: Seq<char>|
            grows(g, #[trigger] g.require(name, declaration)),
        forall|g: GenView, h: GenView, k: GenView|
            #![trigger grows(g, h), grows(h, k)]
            grows(g, h) && grows(h, k) ==> grows(g, k),
{
    assert forall|g: GenView, name: Seq<char>, declaration: Seq<char>|
        grows(g, #[trigger] g.require(name, declaration)) by {
        if ascending(g.externals) {
            lemma_required_stays_ascending(g.externals, name, declaration);
        }
    }
    assert forall|g: GenView, h: GenView, k: GenView|
        #![trigger grows(g, h), grows(h, k)]
        grows(g, h) && grows(h, k) implies grows(g, k) by {
        lemma_grows_transitive(g, h, k);
    }
}

/// Lowering an expression only adds, and leaves the scope as it was.
pub proof fn lemma_lower_extends(e: ExprView, g: GenView)
    ensures
        extends(g, lower(e, g).0),
    decreases e, 0int,
{
    lemma_steps_grow();
    match e {
        ExprView::Let(name, init, body, _) => {
            let (g1, value) = lower(*init, g);
            lemma_lower_extends(*init, g);
            let g2 = g1.spill(annotation(*init), value);
            let g3 = g2.bind(name, g2.values);
            lemma_lower_extends(*body, g3);
            let (g4, _) = lower(*body, g3);
            assert(g4.unbind().scope =~= g.scope);
        },
        ExprView::Sequence(first, second, _) => {
            lemma_materialize_extends(*first, g);
            lemma_materialize_extends(*second, materialize(*first, g).0);
        },
        ExprView::If(cond, then, else_ifs, otherwise, _) => {
            let t = annotation(e);
            let (g1, c) = lower(*cond, g);
            lemma_lower_extends(*cond, g);
            let g2 = g1.slot(t);
            let slot = g2.last();
            let id = g2.labels;
            let g3 = g2.emit(
                branch(c, label("then"@, id), next_arm(id, 0, else_ifs.len())),
            ).next_label().emit(block(label("then"@, id)));
            let (g4, v) = lower(*then, g3);
            lemma_lower_extends(*then, g3);
            let g5 = g4.store(t, v, slot).emit(jump(label("endif"@, id)));
            let g6 = lower_arms(else_ifs, g5, t, slot, id, else_ifs.len() as int);
            lemma_lower_arms_extends(else_ifs, g5, t, slot, id, else_ifs.len() as int);
            let g7 = g6.emit(block(label("else"@, id)));
            lemma_lower_extends(*otherwise, g7);
        },
        ExprView::For(variable, from, to, body, _) => {
            let t = annotation(*from);
            let (g1, low) = lower(*from, g);
            lemma_lower_extends(*from, g);
            let (g2, high) = lower(*to, g1);
            lemma_lower_extends(*to, g1);
            let g3 = g2.spill(t, low);
            let slot = g3.values;
            let id = g3.labels;
            let g4 = g3.emit(jump(label("for.cond"@, id))).next_label().emit(
                block(label("for.cond"@, id)),
            ).load(t, register(slot));
            let g5 = g4.define(binary("icmp sle"@, ir_type(t), g4.last(), high));
            let g6 = g5.emit(
                branch(g5.last(), label("for.body"@, id), label("for.end"@, id)),
            ).emit(block(label("for.body"@, id)));
            let g6b = g6.bind(variable, slot);
            lemma_lower_extends(*body, g6b);
            let (g7, _) = lower(*body, g6b);
            assert(g7.unbind().scope =~= g.scope);
        },
        ExprView::Binary(_, left, right, _) => {
            lemma_lower_extends(*left, g);
            lemma_lower_extends(*right, lower(*left, g).0);
        },
        ExprView::Apply(_, args, _) => {
            lemma_lower_args_extends(args, g, args.len() as int);
        },
        ExprView::Construct(name, inits, _) => {
            let ty = "%"@ + name;
            let g1 = g.define(alloca(ty, 8));
            lemma_lower_inits_extends(inits, g1, ty, g1.last(), inits.len() as int);
        },
        ExprView::Dot(base, field, _) => {
            lemma_member_extends(*base, field, g);
        },
        ExprView::Assign(target, value, _) => {
            lemma_lower_extends(*value, g);
            lemma_address_extends(*target, lower(*value, g).0);
        },
        ExprView::Println(arg, _) => {
            lemma_lower_extends(*arg, g.require("puts"@, "declare i32 @puts(ptr)"@));
        },
        ExprView::Number(_, _) => {},
        ExprView::String(_, _) => {},
        ExprView::Identifier(_, _) => {},
    }
}

/// Lowering an expression of a sequence only adds, and leaves the scope as
/// it was.
pub proof fn lemma_materialize_extends(e: ExprView, g: GenView)
    ensures
        extends(g, materialize(e, g).0),
    decreases e, 1int,
{
    lemma_steps_grow();
    lemma_lower_extends(e, g);
}

/// Lowering the target of an assignment only adds, and leaves the scope as
/// it was.
pub proof fn lemma_address_extends(e: ExprView, g: GenView)
    ensures
        extends(g, address(e, g).0),
    decreases e, 1int,
{
    lemma_steps_grow();
    match e {
        ExprView::Identifier(_, _) => {},
        ExprView::Dot(base, field, _) => {
            lemma_member_extends(*base, field, g);
        },
        _ => {
            lemma_lower_extends(e, g);
        },
    }
}

/// Computing the address of a field only adds, and leaves the scope as it was.
pub proof fn lemma_member_extends(base: ExprView, field: Seq<char>, g: GenView)
    ensures
        extends(g, member(base, field, g).0),
    decreases base, 2int,
{
    lemma_steps_grow();
    lemma_address_extends(base, g);
}

/// Lowering the arguments of a call only adds, and leaves the scope as it was.
pub proof fn lemma_lower_args_extends(args: Seq<ExprView>, g: GenView, n: int)
    ensures
        extends(g, lower_args(args, g, n).0),
    decreases args, n,
{
    lemma_steps_grow();
    if 0 < n <= args.len() {
        lemma_lower_args_extends(args, g, n - 1);
        lemma_lower_extends(args[n - 1], lower_args(args, g, n - 1).0);
    }
}

/// Lowering the field initializers of a construction only adds, and leaves
/// the scope as it was.
pub proof fn lemma_lower_inits_extends(
    inits: Seq<(Seq<char>, ExprView)>,
    g: GenView,
    ty: Seq<char>,
    slot: Seq<char>,
    n: int,
)
    ensures
        extends(g, lower_inits(inits, g, ty, slot, n)),
    decreases inits, n,
{
    lemma_steps_grow();
    if 0 < n <= inits.len() {
        lemma_lower_inits_extends(inits, g, ty, slot, n - 1);
        let g1 = lower_inits(inits, g, ty, slot, n - 1);
        let g2 = g1.define(field_address(ty, slot, (n - 1) as nat));
        lemma_lower_extends(inits[n - 1].1, g2);
    }
}

/// Lowering the else-if arms of an `If` only adds, and leaves the scope as
/// it was.
pub proof fn lemma_lower_arms_extends(
    arms: Seq<(ExprView, ExprView)>,
    g: GenView,
    t: TypeView,
    slot: Seq<char>,
    id: nat,
    n: int,
)
    ensures
        extends(g, lower_arms(arms, g, t, slot, id, n)),
    decreases arms, n,
{
    lemma_steps_grow();
    if 0 < n <= arms.len() {
        let k = (n - 1) as nat;
        lemma_lower_arms_extends(arms, g, t, slot, id, n - 1);
        let g1 = lower_arms(arms, g, t, slot, id, n - 1);
        let g1b = g1.emit(block(arm_label("elif"@, id, k)));
        lemma_lower_extends(arms[n - 1].0, g1b);
        let (g2, c) = lower(arms[n - 1].0, g1b);
        let g3 = g2.emit(
            branch(c, arm_label("elif.then"@, id, k), next_arm(id, k + 1, arms.len())),
        ).emit(block(arm_label("elif.then"@, id, k)));
        lemma_lower_extends(arms[n - 1].1, g3);
    }
}

/// Binding the parameters of a function only adds.
pub proof fn lemma_lower_params_grows(args: Seq<(Seq<char>, TypeView)>, g: GenView, n: int)
    ensures
        grows(g, lower_params(args, g, n)),
    decreases n,
{
    lemma_steps_grow();
    if 0 < n <= args.len() {
        lemma_lower_params_grows(args, g, n - 1);
    }
}

/// Lowering a function only adds lines, string literals and labels; the
/// external symbols stay sorted, and the scope is empty afterwards.
pub proof fn lemma_lower_function_keeps(f: FunctionView, g: GenView)
    ensures
        g.lines.is_prefix_of(lower_function(f, g).lines),
        g.strings.is_prefix_of(lower_function(f, g).strings),
        g.labels <= lower_function(f, g).labels,
        ascending(g.externals) ==> ascending(lower_function(f, g).externals),
        lower_function(f, g).scope.len() == 0,
{
    lemma_steps_grow();
    let opened = GenView {
        lines: g.lines.push(header(f)),
        values: 0,
        labels: g.labels,
        scope: Seq::empty(),
        externals: g.externals,
        strings: g.strings,
    };
    let entered = opened.emit(block("entry"@));
    lemma_lower_params_grows(f.args, entered, f.args.len() as int);
    let g1 = lower_params(f.args, entered, f.args.len() as int);
    lemma_lower_extends(f.body, g1);
    let g2 = lower(f.body, g1).0;
    assert(grows(opened, g2));
    assert(g.lines.is_prefix_of(opened.lines));
}

/// The first `n` functions of a program are lowered without losing a line,
/// a string literal or a label, and with the external symbols sorted.
pub proof fn lemma_lower_functions_keep(fs: Seq<FunctionView>, g: GenView, n: int)
    ensures
        g.lines.is_prefix_of(lower_functions(fs, g, n).lines),
        g.strings.is_prefix_of(lower_functions(fs, g, n).strings),
        g.labels <= lower_functions(fs, g, n).labels,
        ascending(g.externals) ==> ascending(lower_functions(fs, g, n).externals),
    decreases n,
{
    if 0 < n <= fs.len() {
        lemma_lower_functions_keep(fs, g, n - 1);
        lemma_lower_function_keeps(fs[n - 1], lower_functions(fs, g, n - 1));
    }
}

/// The external symbols of a generated program are sorted by name, and no
/// symbol is declared twice.
pub proof fn lemma_generated_externals_ascend(p: ProgramView)
    ensures
        ascending(generated(p).externals),
{
    let start = GenView {
        lines: Seq::new(p.structs.len(), |i: int| struct_line(p.structs[i])),
        values: 0,
        labels: 0,
        scope: Seq::empty(),
        externals: Seq::empty(),
        strings: Seq::empty(),
    };
    lemma_lower_functions_keep(p.functions, start, p.functions.len() as int);
}

} // verus!
