use alcl::codegen::{code_generate, is_lowerable, is_lowerable_program, Generator};
use alcl::expr::{Expr, Info};
use alcl::function::Function;
use alcl::program::Program;
use alcl::type_::Type;
use alcl::type_check::type_check;

fn num(n: i64) -> Expr {
    Expr::Number(n, Info::new())
}

fn text(s: &str) -> Expr {
    Expr::String(s.to_string(), Info::new())
}

fn var(name: &str) -> Expr {
    Expr::Identifier(name.to_string(), Info::new())
}

fn boxed(e: Expr) -> Box<Expr> {
    Box::new(e)
}

fn point_fields() -> Vec<(String, Type)> {
    vec![("x".to_string(), Type::integer()), ("y".to_string(), Type::integer())]
}

fn point_type() -> Type {
    Type::Struct("Point".to_string(), point_fields())
}

fn function(name: &str, args: Vec<(String, Type)>, ret: Type, body: Expr) -> Function {
    Function { name: name.to_string(), args, return_type: ret, body }
}

fn one_function(f: Function) -> Program {
    let mut program = Program::new();
    program.functions.push(f);
    program
}

fn compiled(mut program: Program) -> String {
    assert_eq!(type_check(&mut program), Ok(()));
    assert!(is_lowerable_program(&program));
    code_generate(&program)
}

fn lines(expected: &[&str]) -> String {
    let mut s = String::new();
    for line in expected {
        s.push_str(line);
        s.push('\n');
    }
    s
}

#[test]
fn increment_function_stores_loads_adds_and_returns() {
    let body = Expr::Add(boxed(var("n")), boxed(num(1)), Info::new());
    let program =
        one_function(function("f", vec![("n".to_string(), Type::integer())], Type::integer(), body));
    assert_eq!(
        compiled(program),
        lines(&[
            "define i32 @f(i32 %n) {",
            "entry:",
            "  %1 = alloca i32, align 4",
            "  store i32 %n, ptr %1, align 4",
            "  %2 = load i32, ptr %1, align 4",
            "  %3 = add i32 %2, 1",
            "  ret i32 %3",
            "}",
        ])
    );
}

#[test]
fn dot_addresses_the_second_field_slot() {
    let mut program = Program::new();
    program.structs.push(("Point".to_string(), point_fields()));
    let construct = Expr::Construct(
        "Point".to_string(),
        vec![("x".to_string(), num(1)), ("y".to_string(), num(2))],
        Info::new(),
    );
    program.functions.push(function(
        "g",
        vec![],
        Type::integer(),
        Expr::Dot(boxed(construct), "y".to_string(), Info::new()),
    ));
    assert_eq!(
        compiled(program),
        lines(&[
            "%Point = type { i32, i32 }",
            "define i32 @g() {",
            "entry:",
            "  %1 = alloca %Point, align 8",
            "  %2 = getelementptr %Point, ptr %1, i32 0, i32 0",
            "  store i32 1, ptr %2, align 4",
            "  %3 = getelementptr %Point, ptr %1, i32 0, i32 1",
            "  store i32 2, ptr %3, align 4",
            "  %4 = load %Point, ptr %1, align 8",
            "  %5 = alloca %Point, align 8",
            "  store %Point %4, ptr %5, align 8",
            "  %6 = getelementptr %Point, ptr %5, i32 0, i32 1",
            "  %7 = load i32, ptr %6, align 4",
            "  ret i32 %7",
            "}",
        ])
    );
}

#[test]
fn field_position_follows_the_declaration() {
    assert_eq!(Type::field_position(&point_fields(), "x"), Some(0));
    assert_eq!(Type::field_position(&point_fields(), "y"), Some(1));
    assert_eq!(Type::field_position(&point_fields(), "z"), None);
    let repeated = vec![
        ("a".to_string(), Type::integer()),
        ("b".to_string(), Type::string()),
        ("a".to_string(), Type::boolean()),
    ];
    assert_eq!(Type::field_position(&repeated, "a"), Some(0));
}

#[test]
fn println_declares_puts_once_and_keeps_every_literal() {
    let body = Expr::Sequence(
        boxed(Expr::Println(boxed(text("hi")), Info::new())),
        boxed(Expr::Println(boxed(text("hi")), Info::new())),
        Info::new(),
    );
    let program = one_function(function("main", vec![], Type::unit(), body));
    assert_eq!(
        compiled(program),
        lines(&[
            "define void @main() {",
            "entry:",
            "  %1 = call i32 @puts(ptr @.str.0)",
            "  %2 = call i32 @puts(ptr @.str.1)",
            "  ret void",
            "}",
            "declare i32 @puts(ptr)",
            "@.str.0 = private constant [3 x i8] [i8 104, i8 105, i8 0]",
            "@.str.1 = private constant [3 x i8] [i8 104, i8 105, i8 0]",
        ])
    );
}

#[test]
fn string_constants_hold_the_bytes_of_the_text() {
    let body = Expr::Println(boxed(text("é\"")), Info::new());
    let program = one_function(function("main", vec![], Type::unit(), body));
    let out = compiled(program);
    assert!(out.ends_with(
        "@.str.0 = private constant [4 x i8] [i8 195, i8 169, i8 34, i8 0]\n"
    ));
    let body = Expr::Println(boxed(text("")), Info::new());
    let program = one_function(function("main", vec![], Type::unit(), body));
    assert!(compiled(program).ends_with("@.str.0 = private constant [1 x i8] [i8 0]\n"));
}

#[test]
fn for_loop_has_condition_body_and_end_blocks() {
    let body = Expr::For(
        "i".to_string(),
        boxed(num(1)),
        boxed(num(3)),
        boxed(Expr::Println(boxed(text("x")), Info::new())),
        Info::new(),
    );
    let program = one_function(function("count", vec![], Type::unit(), body));
    assert_eq!(
        compiled(program),
        lines(&[
            "define void @count() {",
            "entry:",
            "  %1 = alloca i32, align 4",
            "  store i32 1, ptr %1, align 4",
            "  br label %for.cond.0",
            "for.cond.0:",
            "  %2 = load i32, ptr %1, align 4",
            "  %3 = icmp sle i32 %2, 3",
            "  br i1 %3, label %for.body.0, label %for.end.0",
            "for.body.0:",
            "  %4 = call i32 @puts(ptr @.str.0)",
            "  %5 = load i32, ptr %1, align 4",
            "  %6 = add i32 %5, 1",
            "  store i32 %6, ptr %1, align 4",
            "  br label %for.cond.0",
            "for.end.0:",
            "  ret void",
            "}",
            "declare i32 @puts(ptr)",
            "@.str.0 = private constant [2 x i8] [i8 120, i8 0]",
        ])
    );
}

#[test]
fn if_chain_joins_in_one_block() {
    let is = |n: i64| Expr::Equal(boxed(var("n")), boxed(num(n)), Info::new());
    let body = Expr::If(boxed(is(0)), boxed(num(10)), vec![(is(1), num(20))], boxed(num(30)), Info::new());
    let program = one_function(function(
        "pick",
        vec![("n".to_string(), Type::integer())],
        Type::integer(),
        body,
    ));
    assert_eq!(
        compiled(program),
        lines(&[
            "define i32 @pick(i32 %n) {",
            "entry:",
            "  %1 = alloca i32, align 4",
            "  store i32 %n, ptr %1, align 4",
            "  %2 = load i32, ptr %1, align 4",
            "  %3 = icmp eq i32 %2, 0",
            "  %4 = alloca i32, align 4",
            "  br i1 %3, label %then.0, label %elif.0.0",
            "then.0:",
            "  store i32 10, ptr %4, align 4",
            "  br label %endif.0",
            "elif.0.0:",
            "  %5 = load i32, ptr %1, align 4",
            "  %6 = icmp eq i32 %5, 1",
            "  br i1 %6, label %elif.then.0.0, label %else.0",
            "elif.then.0.0:",
            "  store i32 20, ptr %4, align 4",
            "  br label %endif.0",
            "else.0:",
            "  store i32 30, ptr %4, align 4",
            "  br label %endif.0",
            "endif.0:",
            "  %7 = load i32, ptr %4, align 4",
            "  ret i32 %7",
            "}",
        ])
    );
}

#[test]
fn nested_ifs_get_labels_of_their_own() {
    let truth = || Expr::Equal(boxed(num(1)), boxed(num(1)), Info::new());
    let inner = Expr::If(boxed(truth()), boxed(num(1)), vec![], boxed(num(2)), Info::new());
    let outer = Expr::If(boxed(truth()), boxed(inner), vec![], boxed(num(3)), Info::new());
    let program = one_function(function("f", vec![], Type::integer(), outer));
    let out = compiled(program);
    for label in ["then.0:", "else.0:", "endif.0:", "then.1:", "else.1:", "endif.1:"] {
        assert_eq!(out.lines().filter(|line| *line == label).count(), 1);
    }
}

#[test]
fn labels_are_not_reused_across_functions() {
    let truth = || Expr::Equal(boxed(num(1)), boxed(num(1)), Info::new());
    let choice = || Expr::If(boxed(truth()), boxed(num(1)), vec![], boxed(num(2)), Info::new());
    let mut program = Program::new();
    program.functions.push(function("a", vec![], Type::integer(), choice()));
    program.functions.push(function("b", vec![], Type::integer(), choice()));
    let out = compiled(program);
    assert_eq!(out.lines().filter(|line| *line == "then.0:").count(), 1);
    assert_eq!(out.lines().filter(|line| *line == "then.1:").count(), 1);
    assert_eq!(out.lines().filter(|line| *line == "  %1 = icmp eq i32 1, 1").count(), 2);
}

#[test]
fn literals_in_a_sequence_go_through_a_slot() {
    let body = Expr::Let(
        "x".to_string(),
        boxed(num(5)),
        boxed(Expr::Sequence(boxed(num(1)), boxed(var("x")), Info::new())),
        Info::new(),
    );
    let program = one_function(function("s", vec![], Type::integer(), body));
    assert_eq!(
        compiled(program),
        lines(&[
            "define i32 @s() {",
            "entry:",
            "  %1 = alloca i32, align 4",
            "  store i32 5, ptr %1, align 4",
            "  %2 = alloca i32, align 4",
            "  store i32 1, ptr %2, align 4",
            "  %3 = load i32, ptr %2, align 4",
            "  %4 = load i32, ptr %1, align 4",
            "  ret i32 %4",
            "}",
        ])
    );
}

#[test]
fn shadowed_names_read_the_inner_slot() {
    let body = Expr::Let(
        "x".to_string(),
        boxed(num(1)),
        boxed(Expr::Add(
            boxed(Expr::Let("x".to_string(), boxed(num(2)), boxed(var("x")), Info::new())),
            boxed(var("x")),
            Info::new(),
        )),
        Info::new(),
    );
    let program = one_function(function("s", vec![], Type::integer(), body));
    assert_eq!(
        compiled(program),
        lines(&[
            "define i32 @s() {",
            "entry:",
            "  %1 = alloca i32, align 4",
            "  store i32 1, ptr %1, align 4",
            "  %2 = alloca i32, align 4",
            "  store i32 2, ptr %2, align 4",
            "  %3 = load i32, ptr %2, align 4",
            "  %4 = load i32, ptr %1, align 4",
            "  %5 = add i32 %3, %4",
            "  ret i32 %5",
            "}",
        ])
    );
}

#[test]
fn calls_pass_arguments_in_order() {
    let mut program = Program::new();
    program.functions.push(function(
        "f",
        vec![("a".to_string(), Type::integer()), ("b".to_string(), Type::string())],
        Type::integer(),
        var("a"),
    ));
    program.functions.push(function("h", vec![], Type::unit(), Expr::Println(boxed(text("")), Info::new())));
    program.functions.push(function(
        "g",
        vec![],
        Type::integer(),
        Expr::Sequence(
            boxed(Expr::Apply(boxed(var("h")), vec![], Info::new())),
            boxed(Expr::Apply(boxed(var("f")), vec![num(-3), text("s")], Info::new())),
            Info::new(),
        ),
    ));
    let out = compiled(program);
    assert!(out.contains("define i32 @f(i32 %a, ptr %b) {\n"));
    assert!(out.contains(
        "define i32 @g() {\nentry:\n  call void @h()\n  %1 = call i32 @f(i32 -3, ptr @.str.1)\n  ret i32 %1\n}\n"
    ));
}

#[test]
fn assignment_to_a_field_stores_through_its_address() {
    let mut program = Program::new();
    program.structs.push(("Point".to_string(), point_fields()));
    program.functions.push(function(
        "set",
        vec![("p".to_string(), point_type())],
        Type::integer(),
        Expr::Assign(
            boxed(Expr::Dot(boxed(var("p")), "y".to_string(), Info::new())),
            boxed(num(7)),
            Info::new(),
        ),
    ));
    assert_eq!(
        compiled(program),
        lines(&[
            "%Point = type { i32, i32 }",
            "define i32 @set(%Point %p) {",
            "entry:",
            "  %1 = alloca %Point, align 8",
            "  store %Point %p, ptr %1, align 8",
            "  %2 = getelementptr %Point, ptr %1, i32 0, i32 1",
            "  store i32 7, ptr %2, align 4",
            "  ret i32 7",
            "}",
        ])
    );
}

#[test]
fn assignment_to_a_name_stores_into_its_slot() {
    let body = Expr::Let(
        "x".to_string(),
        boxed(num(1)),
        boxed(Expr::Assign(boxed(var("x")), boxed(num(2)), Info::new())),
        Info::new(),
    );
    let program = one_function(function("f", vec![], Type::integer(), body));
    assert_eq!(
        compiled(program),
        lines(&[
            "define i32 @f() {",
            "entry:",
            "  %1 = alloca i32, align 4",
            "  store i32 1, ptr %1, align 4",
            "  store i32 2, ptr %1, align 4",
            "  ret i32 2",
            "}",
        ])
    );
}

#[test]
fn operators_have_their_instructions() {
    let cases = [
        (Expr::Sub(boxed(num(1)), boxed(num(2)), Info::new()), "  %1 = sub i32 1, 2"),
        (Expr::Mult(boxed(num(1)), boxed(num(2)), Info::new()), "  %1 = mul i32 1, 2"),
        (Expr::Div(boxed(num(1)), boxed(num(2)), Info::new()), "  %1 = sdiv i32 1, 2"),
        (Expr::Surplus(boxed(num(1)), boxed(num(2)), Info::new()), "  %1 = srem i32 1, 2"),
    ];
    for (body, line) in cases {
        let program = one_function(function("f", vec![], Type::integer(), body));
        assert!(compiled(program).contains(line));
    }
    let body = Expr::NotEqual(boxed(text("a")), boxed(text("b")), Info::new());
    let program = one_function(function("f", vec![], Type::boolean(), body));
    let out = compiled(program);
    assert!(out.contains("define i1 @f() {\n"));
    assert!(out.contains("  %1 = icmp ne ptr @.str.0, @.str.1\n  ret i1 %1\n"));
}

#[test]
fn extreme_numbers_are_written_in_full() {
    let body = Expr::Add(boxed(num(i64::MIN)), boxed(num(i64::MAX)), Info::new());
    let program = one_function(function("f", vec![], Type::integer(), body));
    assert!(compiled(program)
        .contains("  %1 = add i32 -9223372036854775808, 9223372036854775807\n"));
}

#[test]
fn generating_twice_gives_the_same_text() {
    let body = Expr::Println(boxed(text("again")), Info::new());
    let mut program = one_function(function("main", vec![], Type::unit(), body));
    program.structs.push(("Point".to_string(), point_fields()));
    let mut copy = program.clone();
    assert_eq!(type_check(&mut program), Ok(()));
    assert_eq!(type_check(&mut copy), Ok(()));
    assert_eq!(program, copy);
    assert_eq!(code_generate(&program), code_generate(&program));
    assert_eq!(code_generate(&program), code_generate(&copy));
}

#[test]
fn unchecked_trees_are_not_lowerable() {
    let body = Expr::Add(boxed(num(1)), boxed(num(2)), Info::new());
    assert!(!is_lowerable(&body));
    let program = one_function(function("f", vec![], Type::integer(), body));
    assert!(!is_lowerable_program(&program));
}

#[test]
fn calls_through_a_computed_callee_are_not_lowerable() {
    let callee = Expr::Let("g".to_string(), boxed(var("f")), boxed(var("g")), Info::new());
    let mut program = Program::new();
    program.functions.push(function("f", vec![], Type::integer(), num(1)));
    program.functions.push(function(
        "h",
        vec![],
        Type::integer(),
        Expr::Apply(boxed(callee), vec![], Info::new()),
    ));
    assert_eq!(type_check(&mut program), Ok(()));
    assert!(!is_lowerable_program(&program));
}

#[test]
fn external_symbols_stay_sorted_and_unique() {
    let mut g = Generator::new();
    g.require("puts", "declare i32 @puts(ptr)");
    g.require("abort", "declare void @abort()");
    g.require("puts", "declare i32 @puts(ptr)");
    g.require("exit", "declare void @exit(i32)");
    g.require("pu", "declare void @pu()");
    let names: Vec<&str> = g.externals.iter().map(|entry| entry.0.as_str()).collect();
    assert_eq!(names, vec!["abort", "exit", "pu", "puts"]);
}
