use alcl::expr::{Expr, Info};
use alcl::function::Function;
use alcl::program::Program;
use alcl::type_::Type;
use alcl::type_check::{type_check, type_check_impl, CheckError, Env};

fn num(n: i64) -> Expr {
    Expr::Number(n, Info::new())
}

fn text(s: &str) -> Expr {
    Expr::String(s.to_string(), Info::new())
}

fn var(name: &str) -> Expr {
    Expr::Identifier(name.to_string(), Info::new())
}

fn boxed(e: Expr) -> Box<Expr> {
    Box::new(e)
}

fn truth() -> Expr {
    Expr::Equal(boxed(num(1)), boxed(num(1)), Info::new())
}

fn point_fields() -> Vec<(String, Type)> {
    vec![("x".to_string(), Type::integer()), ("y".to_string(), Type::integer())]
}

fn function(name: &str, args: Vec<(String, Type)>, ret: Type, body: Expr) -> Function {
    Function { name: name.to_string(), args, return_type: ret, body }
}

#[test]
fn add_of_two_numbers_is_int() {
    let mut e = Expr::Add(boxed(num(1)), boxed(num(2)), Info::new());
    let env = Env::new();
    assert_eq!(type_check_impl(&mut e, &env), Ok(Type::integer()));
    assert_eq!(e.type_(), Some(Type::integer()));
    match e {
        Expr::Add(l, r, _) => {
            assert_eq!(l.type_(), Some(Type::integer()));
            assert_eq!(r.type_(), Some(Type::integer()));
        }
        _ => unreachable!(),
    }
}

#[test]
fn if_with_int_condition_is_rejected() {
    let mut e = Expr::If(boxed(num(1)), boxed(num(2)), vec![], boxed(num(3)), Info::new());
    assert_eq!(type_check_impl(&mut e, &Env::new()), Err(CheckError::ConditionNotBoolean));
}

#[test]
fn if_with_disagreeing_branches_is_rejected() {
    let mut e = Expr::If(boxed(truth()), boxed(num(2)), vec![], boxed(text("no")), Info::new());
    assert_eq!(type_check_impl(&mut e, &Env::new()), Err(CheckError::BranchTypeMismatch));
}

#[test]
fn if_with_agreeing_branches_has_their_type() {
    let mut e = Expr::If(
        boxed(truth()),
        boxed(text("a")),
        vec![(truth(), text("b"))],
        boxed(text("c")),
        Info::new(),
    );
    assert_eq!(type_check_impl(&mut e, &Env::new()), Ok(Type::string()));
}

#[test]
fn else_if_condition_must_be_boolean() {
    let mut e = Expr::If(
        boxed(truth()),
        boxed(num(1)),
        vec![(truth(), num(2)), (num(0), num(3))],
        boxed(num(4)),
        Info::new(),
    );
    assert_eq!(type_check_impl(&mut e, &Env::new()), Err(CheckError::ConditionNotBoolean));
}

#[test]
fn else_if_body_must_agree() {
    let mut e = Expr::If(
        boxed(truth()),
        boxed(num(1)),
        vec![(truth(), text("two"))],
        boxed(num(4)),
        Info::new(),
    );
    assert_eq!(type_check_impl(&mut e, &Env::new()), Err(CheckError::BranchTypeMismatch));
}

#[test]
fn unbound_identifier_is_reported_by_name() {
    let mut e = var("z");
    assert_eq!(
        type_check_impl(&mut e, &Env::new()),
        Err(CheckError::UnboundIdentifier("z".to_string()))
    );
}

#[test]
fn first_violation_wins() {
    let mut e = Expr::Add(
        boxed(var("missing")),
        boxed(Expr::Println(boxed(num(1)), Info::new())),
        Info::new(),
    );
    assert_eq!(
        type_check_impl(&mut e, &Env::new()),
        Err(CheckError::UnboundIdentifier("missing".to_string()))
    );
}

#[test]
fn let_binds_the_initializer_type_in_the_body_only() {
    let mut e = Expr::Let("x".to_string(), boxed(text("s")), boxed(var("x")), Info::new());
    assert_eq!(type_check_impl(&mut e, &Env::new()), Ok(Type::string()));
    let mut e = Expr::Sequence(
        boxed(Expr::Let("x".to_string(), boxed(num(1)), boxed(var("x")), Info::new())),
        boxed(var("x")),
        Info::new(),
    );
    assert_eq!(
        type_check_impl(&mut e, &Env::new()),
        Err(CheckError::UnboundIdentifier("x".to_string()))
    );
}

#[test]
fn inner_binding_shadows_outer() {
    let mut e = Expr::Let(
        "x".to_string(),
        boxed(num(1)),
        boxed(Expr::Let("x".to_string(), boxed(text("s")), boxed(var("x")), Info::new())),
        Info::new(),
    );
    assert_eq!(type_check_impl(&mut e, &Env::new()), Ok(Type::string()));
}

#[test]
fn sequence_has_the_type_of_its_second_part() {
    let mut e = Expr::Sequence(boxed(num(1)), boxed(text("s")), Info::new());
    assert_eq!(type_check_impl(&mut e, &Env::new()), Ok(Type::string()));
    let mut e = Expr::Sequence(boxed(var("q")), boxed(text("s")), Info::new());
    assert_eq!(
        type_check_impl(&mut e, &Env::new()),
        Err(CheckError::UnboundIdentifier("q".to_string()))
    );
}

#[test]
fn for_is_unit_and_binds_its_variable() {
    let mut e = Expr::For(
        "i".to_string(),
        boxed(num(0)),
        boxed(num(9)),
        boxed(Expr::Add(boxed(var("i")), boxed(num(1)), Info::new())),
        Info::new(),
    );
    assert_eq!(type_check_impl(&mut e, &Env::new()), Ok(Type::unit()));
    let mut e =
        Expr::For("i".to_string(), boxed(num(0)), boxed(text("9")), boxed(num(1)), Info::new());
    assert_eq!(type_check_impl(&mut e, &Env::new()), Err(CheckError::RangeTypeMismatch));
}

#[test]
fn comparison_is_bool_and_operands_must_agree() {
    let mut e = Expr::NotEqual(boxed(text("a")), boxed(text("b")), Info::new());
    assert_eq!(type_check_impl(&mut e, &Env::new()), Ok(Type::boolean()));
    let mut e = Expr::Equal(boxed(text("a")), boxed(num(1)), Info::new());
    assert_eq!(type_check_impl(&mut e, &Env::new()), Err(CheckError::OperandTypeMismatch));
    let mut e = Expr::Surplus(boxed(num(7)), boxed(text("b")), Info::new());
    assert_eq!(type_check_impl(&mut e, &Env::new()), Err(CheckError::OperandTypeMismatch));
    let mut e = Expr::Mult(boxed(text("a")), boxed(text("b")), Info::new());
    assert_eq!(type_check_impl(&mut e, &Env::new()), Ok(Type::string()));
}

#[test]
fn assign_needs_equal_sides() {
    let mut env = Env::new();
    env.add_variable("x".to_string(), Type::integer());
    let mut e = Expr::Assign(boxed(var("x")), boxed(num(3)), Info::new());
    assert_eq!(type_check_impl(&mut e, &env), Ok(Type::integer()));
    let mut e = Expr::Assign(boxed(var("x")), boxed(text("3")), Info::new());
    assert_eq!(type_check_impl(&mut e, &env), Err(CheckError::OperandTypeMismatch));
}

#[test]
fn apply_checks_callee_arity_and_argument_types() {
    let mut env = Env::new();
    env.add_variable(
        "f".to_string(),
        Type::Function(Box::new(Type::string()), vec![Type::integer(), Type::boolean()]),
    );
    env.add_variable("n".to_string(), Type::integer());
    let mut e = Expr::Apply(boxed(var("f")), vec![num(1), truth()], Info::new());
    assert_eq!(type_check_impl(&mut e, &env), Ok(Type::string()));
    let mut e = Expr::Apply(boxed(var("f")), vec![num(1)], Info::new());
    assert_eq!(type_check_impl(&mut e, &env), Err(CheckError::ArityOrArgTypeMismatch));
    let mut e = Expr::Apply(boxed(var("f")), vec![truth(), num(1)], Info::new());
    assert_eq!(type_check_impl(&mut e, &env), Err(CheckError::ArityOrArgTypeMismatch));
    let mut e = Expr::Apply(boxed(var("n")), vec![], Info::new());
    assert_eq!(type_check_impl(&mut e, &env), Err(CheckError::NotAFunction));
    let mut e = Expr::Apply(boxed(var("f")), vec![var("gone"), num(1)], Info::new());
    assert_eq!(
        type_check_impl(&mut e, &env),
        Err(CheckError::UnboundIdentifier("gone".to_string()))
    );
}

#[test]
fn construct_then_dot_resolves_the_field_type() {
    let mut env = Env::new();
    env.add_struct("Point".to_string(), point_fields());
    let construct = Expr::Construct(
        "Point".to_string(),
        vec![("x".to_string(), num(1)), ("y".to_string(), num(2))],
        Info::new(),
    );
    let mut e = Expr::Dot(boxed(construct), "y".to_string(), Info::new());
    assert_eq!(type_check_impl(&mut e, &env), Ok(Type::integer()));
    match e {
        Expr::Dot(base, _, _) => {
            assert_eq!(base.type_(), Some(Type::Struct("Point".to_string(), point_fields())));
        }
        _ => unreachable!(),
    }
}

#[test]
fn construct_needs_the_declared_fields_in_order() {
    let mut env = Env::new();
    env.add_struct("Point".to_string(), point_fields());
    let mut e = Expr::Construct(
        "Point".to_string(),
        vec![("y".to_string(), num(2)), ("x".to_string(), num(1))],
        Info::new(),
    );
    assert_eq!(type_check_impl(&mut e, &env), Err(CheckError::FieldMismatch));
    let mut e = Expr::Construct(
        "Point".to_string(),
        vec![("x".to_string(), num(1)), ("y".to_string(), text("2"))],
        Info::new(),
    );
    assert_eq!(type_check_impl(&mut e, &env), Err(CheckError::FieldMismatch));
    let mut e = Expr::Construct("Point".to_string(), vec![("x".to_string(), num(1))], Info::new());
    assert_eq!(type_check_impl(&mut e, &env), Err(CheckError::FieldMismatch));
    let mut e = Expr::Construct("Line".to_string(), vec![], Info::new());
    assert_eq!(type_check_impl(&mut e, &env), Err(CheckError::UnknownStruct));
}

#[test]
fn dot_needs_a_struct_with_that_field() {
    let mut env = Env::new();
    env.add_variable("p".to_string(), Type::Struct("Point".to_string(), point_fields()));
    env.add_variable("n".to_string(), Type::integer());
    let mut e = Expr::Dot(boxed(var("p")), "x".to_string(), Info::new());
    assert_eq!(type_check_impl(&mut e, &env), Ok(Type::integer()));
    let mut e = Expr::Dot(boxed(var("p")), "z".to_string(), Info::new());
    assert_eq!(type_check_impl(&mut e, &env), Err(CheckError::UnknownField));
    let mut e = Expr::Dot(boxed(var("n")), "x".to_string(), Info::new());
    assert_eq!(type_check_impl(&mut e, &env), Err(CheckError::NotAStruct));
}

#[test]
fn println_takes_a_string() {
    let mut e = Expr::Println(boxed(text("hi")), Info::new());
    assert_eq!(type_check_impl(&mut e, &Env::new()), Ok(Type::unit()));
    let mut e = Expr::Println(boxed(num(1)), Info::new());
    assert_eq!(type_check_impl(&mut e, &Env::new()), Err(CheckError::PrintlnArgumentNotString));
}

#[test]
fn functions_may_call_functions_defined_later() {
    let mut program = Program::new();
    program.functions.push(function(
        "first",
        vec![("n".to_string(), Type::integer())],
        Type::integer(),
        Expr::Apply(boxed(var("second")), vec![var("n")], Info::new()),
    ));
    program.functions.push(function(
        "second",
        vec![("m".to_string(), Type::integer())],
        Type::integer(),
        Expr::Apply(boxed(var("first")), vec![var("m")], Info::new()),
    ));
    assert_eq!(type_check(&mut program), Ok(()));
    assert_eq!(program.functions[0].body.type_(), Some(Type::integer()));
    assert_eq!(program.functions[1].body.type_(), Some(Type::integer()));
}

#[test]
fn parameters_do_not_leak_into_other_functions() {
    let mut program = Program::new();
    program.functions.push(function(
        "first",
        vec![("n".to_string(), Type::integer())],
        Type::integer(),
        var("n"),
    ));
    program.functions.push(function("second", vec![], Type::integer(), var("n")));
    assert_eq!(type_check(&mut program), Err(CheckError::UnboundIdentifier("n".to_string())));
}

#[test]
fn body_must_have_the_declared_return_type() {
    let mut program = Program::new();
    program.functions.push(function("f", vec![], Type::string(), num(1)));
    assert_eq!(type_check(&mut program), Err(CheckError::ReturnTypeMismatch));
}

#[test]
fn program_structs_are_visible_in_bodies() {
    let mut program = Program::new();
    program.structs.push(("Point".to_string(), point_fields()));
    let construct = Expr::Construct(
        "Point".to_string(),
        vec![("x".to_string(), num(1)), ("y".to_string(), num(2))],
        Info::new(),
    );
    program.functions.push(function(
        "f",
        vec![],
        Type::integer(),
        Expr::Dot(boxed(construct), "y".to_string(), Info::new()),
    ));
    assert_eq!(type_check(&mut program), Ok(()));
    assert_eq!(program.functions[0].body.type_(), Some(Type::integer()));
}

#[test]
fn most_recent_binding_is_found_first() {
    let mut env = Env::new();
    env.add_variable("x".to_string(), Type::integer());
    env.add_variable("y".to_string(), Type::boolean());
    env.add_variable("x".to_string(), Type::string());
    assert_eq!(env.lookup_var(&"x".to_string()), Some(Type::string()));
    assert_eq!(env.lookup_var(&"y".to_string()), Some(Type::boolean()));
    assert_eq!(env.lookup_var(&"z".to_string()), None);
    env.append_variable(vec![
        ("z".to_string(), Type::unit()),
        ("y".to_string(), Type::integer()),
    ]);
    assert_eq!(env.lookup_var(&"z".to_string()), Some(Type::unit()));
    assert_eq!(env.lookup_var(&"y".to_string()), Some(Type::integer()));
}

#[test]
fn struct_lookup_gives_the_declared_fields() {
    let mut env = Env::new();
    env.add_struct("Point".to_string(), point_fields());
    assert_eq!(env.lookup_struct(&"Point".to_string()), Some(point_fields()));
    assert_eq!(env.lookup_struct(&"Line".to_string()), None);
    env.add_struct("Point".to_string(), vec![]);
    assert_eq!(env.lookup_struct(&"Point".to_string()), Some(vec![]));
}

#[test]
fn every_violation_has_its_message() {
    assert_eq!(CheckError::ConditionNotBoolean.message(), "if condition must be boolean");
    assert_eq!(CheckError::BranchTypeMismatch.message(), "if result must have same type");
    assert_eq!(
        CheckError::RangeTypeMismatch.message(),
        "type error in for expression: from expr and to expr must have same type"
    );
    assert_eq!(CheckError::OperandTypeMismatch.message(), "lhs and rhs must have same type");
    assert_eq!(
        CheckError::NotAFunction.message(),
        "type error: can not apply for non function expr"
    );
    assert_eq!(
        CheckError::ArityOrArgTypeMismatch.message(),
        "type error: not match function arg types"
    );
    assert_eq!(CheckError::UnknownStruct.message(), "can not construct non struct type");
    assert_eq!(CheckError::FieldMismatch.message(), "type error: not match construct arg types");
    assert_eq!(CheckError::NotAStruct.message(), "can not apply dot expr for non struct type");
    assert_eq!(CheckError::UnknownField.message(), "type error: no such field in struct type");
    assert_eq!(
        CheckError::PrintlnArgumentNotString.message(),
        "println expr accepts only string expr"
    );
    assert_eq!(
        CheckError::UnboundIdentifier("z".to_string()).message(),
        "error: unbound variable: z"
    );
    assert_eq!(CheckError::ReturnTypeMismatch.message(), "type error: not match return type");
}

#[test]
fn declaring_a_struct_again_replaces_it_in_place() {
    let mut program = Program::new();
    program.add_struct("A".to_string(), vec![("x".to_string(), Type::integer())]);
    program.add_struct("B".to_string(), vec![]);
    program.add_struct("A".to_string(), vec![("y".to_string(), Type::string())]);
    assert_eq!(
        program.structs,
        vec![
            ("A".to_string(), vec![("y".to_string(), Type::string())]),
            ("B".to_string(), vec![]),
        ]
    );
}

#[test]
fn checking_twice_changes_nothing_more() {
    let mut program = Program::new();
    program.functions.push(function(
        "f",
        vec![("n".to_string(), Type::integer())],
        Type::integer(),
        Expr::Let(
            "m".to_string(),
            boxed(var("n")),
            boxed(Expr::Add(boxed(var("m")), boxed(num(1)), Info::new())),
            Info::new(),
        ),
    ));
    assert_eq!(type_check(&mut program), Ok(()));
    let once = program.clone();
    assert_eq!(type_check(&mut program), Ok(()));
    assert_eq!(program, once);
    let mut bad = Program::new();
    bad.functions.push(function("g", vec![], Type::integer(), var("q")));
    let first = type_check(&mut bad);
    assert_eq!(first, Err(CheckError::UnboundIdentifier("q".to_string())));
    assert_eq!(type_check(&mut bad), first);
}

fn children(e: &Expr) -> Vec<&Expr> {
    match e {
        Expr::Let(_, a, b, _) | Expr::Sequence(a, b, _) | Expr::Assign(a, b, _) => vec![&**a, &**b],
        Expr::Equal(a, b, _)
        | Expr::NotEqual(a, b, _)
        | Expr::Add(a, b, _)
        | Expr::Sub(a, b, _)
        | Expr::Surplus(a, b, _)
        | Expr::Mult(a, b, _)
        | Expr::Div(a, b, _) => vec![&**a, &**b],
        Expr::If(c, t, arms, f, _) => {
            let mut all = vec![&**c, &**t];
            for (cond, body) in arms {
                all.push(cond);
                all.push(body);
            }
            all.push(&**f);
            all
        }
        Expr::For(_, a, b, c, _) => vec![&**a, &**b, &**c],
        Expr::Apply(callee, args, _) => {
            let mut all = vec![&**callee];
            all.extend(args.iter());
            all
        }
        Expr::Construct(_, inits, _) => inits.iter().map(|init| &init.1).collect(),
        Expr::Dot(base, _, _) => vec![&**base],
        Expr::Println(arg, _) => vec![&**arg],
        Expr::Number(_, _) | Expr::String(_, _) | Expr::Identifier(_, _) => vec![],
    }
}

fn every_node_is_typed(e: &Expr) -> bool {
    e.type_().is_some() && children(e).into_iter().all(every_node_is_typed)
}

fn big_body() -> Expr {
    let construct = Expr::Construct(
        "Point".to_string(),
        vec![("x".to_string(), num(1)), ("y".to_string(), var("n"))],
        Info::new(),
    );
    Expr::Let(
        "p".to_string(),
        boxed(construct),
        boxed(Expr::Sequence(
            boxed(Expr::For(
                "i".to_string(),
                boxed(num(0)),
                boxed(var("n")),
                boxed(Expr::Println(boxed(text("step")), Info::new())),
                Info::new(),
            )),
            boxed(Expr::If(
                boxed(Expr::Equal(
                    boxed(Expr::Dot(boxed(var("p")), "y".to_string(), Info::new())),
                    boxed(num(0)),
                    Info::new(),
                )),
                boxed(Expr::Apply(boxed(var("f")), vec![num(1)], Info::new())),
                vec![(
                    truth(),
                    Expr::Assign(
                        boxed(Expr::Dot(boxed(var("p")), "x".to_string(), Info::new())),
                        boxed(num(3)),
                        Info::new(),
                    ),
                )],
                boxed(Expr::Surplus(boxed(var("n")), boxed(num(2)), Info::new())),
                Info::new(),
            )),
            Info::new(),
        )),
        Info::new(),
    )
}

#[test]
fn every_node_is_annotated_after_a_successful_check() {
    let mut program = Program::new();
    program.add_struct("Point".to_string(), point_fields());
    program.functions.push(function(
        "f",
        vec![("n".to_string(), Type::integer())],
        Type::integer(),
        big_body(),
    ));
    assert!(!every_node_is_typed(&program.functions[0].body));
    assert_eq!(type_check(&mut program), Ok(()));
    assert!(every_node_is_typed(&program.functions[0].body));
}

fn without_types(e: &Expr) -> Expr {
    let b = |e: &Expr| Box::new(without_types(e));
    let i = Info::new();
    match e {
        Expr::Let(n, x, y, _) => Expr::Let(n.clone(), b(x), b(y), i),
        Expr::Sequence(x, y, _) => Expr::Sequence(b(x), b(y), i),
        Expr::If(c, t, arms, f, _) => Expr::If(
            b(c),
            b(t),
            arms.iter().map(|(x, y)| (without_types(x), without_types(y))).collect(),
            b(f),
            i,
        ),
        Expr::For(n, x, y, z, _) => Expr::For(n.clone(), b(x), b(y), b(z), i),
        Expr::Equal(x, y, _) => Expr::Equal(b(x), b(y), i),
        Expr::NotEqual(x, y, _) => Expr::NotEqual(b(x), b(y), i),
        Expr::Add(x, y, _) => Expr::Add(b(x), b(y), i),
        Expr::Sub(x, y, _) => Expr::Sub(b(x), b(y), i),
        Expr::Surplus(x, y, _) => Expr::Surplus(b(x), b(y), i),
        Expr::Mult(x, y, _) => Expr::Mult(b(x), b(y), i),
        Expr::Div(x, y, _) => Expr::Div(b(x), b(y), i),
        Expr::Apply(c, args, _) => Expr::Apply(b(c), args.iter().map(without_types).collect(), i),
        Expr::Construct(n, inits, _) => Expr::Construct(
            n.clone(),
            inits.iter().map(|(name, x)| (name.clone(), without_types(x))).collect(),
            i,
        ),
        Expr::Dot(x, n, _) => Expr::Dot(b(x), n.clone(), i),
        Expr::Assign(x, y, _) => Expr::Assign(b(x), b(y), i),
        Expr::Println(x, _) => Expr::Println(b(x), i),
        Expr::Number(n, _) => Expr::Number(*n, i),
        Expr::String(s, _) => Expr::String(s.clone(), i),
        Expr::Identifier(n, _) => Expr::Identifier(n.clone(), i),
    }
}

#[test]
fn checking_changes_nothing_but_annotations() {
    let mut env = Env::new();
    env.add_struct("Point".to_string(), point_fields());
    env.add_variable("n".to_string(), Type::integer());
    env.add_variable(
        "f".to_string(),
        Type::Function(Box::new(Type::integer()), vec![Type::integer()]),
    );
    let mut good = big_body();
    assert_eq!(type_check_impl(&mut good, &env), Ok(Type::integer()));
    assert_ne!(good, big_body());
    assert_eq!(without_types(&good), big_body());
    let mut bad = Expr::Sequence(boxed(big_body()), boxed(var("nowhere")), Info::new());
    let before = bad.clone();
    assert_eq!(
        type_check_impl(&mut bad, &env),
        Err(CheckError::UnboundIdentifier("nowhere".to_string()))
    );
    assert_eq!(without_types(&bad), before);
}
