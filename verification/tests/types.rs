use alcl::expr::{Expr, Info, Operator};
use alcl::function::Function;
use alcl::type_::Type;

fn num(n: i64) -> Expr {
    Expr::Number(n, Info::new())
}

#[test]
fn named_types_are_primitives() {
    assert_eq!(Type::integer(), Type::Primitive("Int".to_string()));
    assert_eq!(Type::boolean(), Type::Primitive("Bool".to_string()));
    assert_eq!(Type::string(), Type::Primitive("String".to_string()));
    assert_eq!(Type::unit(), Type::Primitive("Unit".to_string()));
}

#[test]
fn alignment_follows_the_table() {
    assert_eq!(Type::boolean().align(), 1);
    assert_eq!(Type::integer().align(), 4);
    assert_eq!(Type::Primitive("Char".to_string()).align(), 1);
    assert_eq!(Type::string().align(), 8);
    assert_eq!(Type::Generic("List".to_string(), Box::new(Type::boolean())).align(), 8);
    assert_eq!(Type::Generic("Array".to_string(), Box::new(Type::integer())).align(), 8);
}

#[test]
fn the_table_covers_scalars_and_containers_only() {
    assert!(Type::integer().is_aligned());
    assert!(Type::Generic("List".to_string(), Box::new(Type::unit())).is_aligned());
    assert!(!Type::unit().is_aligned());
    assert!(!Type::Primitive("Float".to_string()).is_aligned());
    assert!(!Type::Struct("P".to_string(), vec![]).is_aligned());
    assert!(!Type::Function(Box::new(Type::integer()), vec![]).is_aligned());
}

#[test]
fn struct_types_are_equal_only_with_equal_fields_in_order() {
    let x = ("x".to_string(), Type::integer());
    let y = ("y".to_string(), Type::integer());
    let a = Type::Struct("P".to_string(), vec![x.clone(), y.clone()]);
    assert_eq!(a, Type::Struct("P".to_string(), vec![x.clone(), y.clone()]));
    assert_ne!(a, Type::Struct("P".to_string(), vec![y.clone(), x.clone()]));
    assert_ne!(a, Type::Struct("Q".to_string(), vec![x.clone(), y.clone()]));
    assert_ne!(a, Type::Struct("P".to_string(), vec![x.clone()]));
    assert_ne!(a, Type::Struct("P".to_string(), vec![x.clone(), ("y".to_string(), Type::string())]));
    assert_ne!(a, Type::Primitive("P".to_string()));
}

#[test]
fn function_types_are_equal_only_with_equal_parameters_in_order() {
    let f = |ret: Type, params: Vec<Type>| Type::Function(Box::new(ret), params);
    let a = f(Type::unit(), vec![Type::integer(), Type::string()]);
    assert_eq!(a, f(Type::unit(), vec![Type::integer(), Type::string()]));
    assert_ne!(a, f(Type::unit(), vec![Type::string(), Type::integer()]));
    assert_ne!(a, f(Type::integer(), vec![Type::integer(), Type::string()]));
    assert_ne!(a, f(Type::unit(), vec![Type::integer()]));
    assert_eq!(a.clone(), a);
    let g = Type::Generic("List".to_string(), Box::new(a.clone()));
    assert_eq!(g.clone(), g);
    assert_ne!(g, Type::Generic("Array".to_string(), Box::new(a.clone())));
    assert_ne!(g, Type::Generic("List".to_string(), Box::new(Type::unit())));
}

#[test]
fn function_type_is_return_type_over_parameter_types() {
    let f = Function {
        name: "f".to_string(),
        args: vec![("a".to_string(), Type::integer()), ("b".to_string(), Type::string())],
        return_type: Type::boolean(),
        body: num(0),
    };
    assert_eq!(
        f.type_(),
        Type::Function(Box::new(Type::boolean()), vec![Type::integer(), Type::string()])
    );
    assert_eq!(f.clone(), f);
}

#[test]
fn operator_nodes_name_their_instruction() {
    let node = |op: Operator| Expr::binary(op, num(1), num(2));
    assert_eq!(node(Operator::Equal).operand(), "icmp eq");
    assert_eq!(node(Operator::NotEqual).operand(), "icmp ne");
    assert_eq!(node(Operator::Add).operand(), "add");
    assert_eq!(node(Operator::Sub).operand(), "sub");
    assert_eq!(node(Operator::Mult).operand(), "mul");
    assert_eq!(node(Operator::Div).operand(), "sdiv");
    assert_eq!(node(Operator::Surplus).operand(), "srem");
    assert!(node(Operator::Add).is_operator());
    assert!(!num(1).is_operator());
    assert_eq!(
        node(Operator::Sub),
        Expr::Sub(Box::new(num(1)), Box::new(num(2)), Info::new())
    );
}

#[test]
fn fresh_nodes_have_no_type() {
    assert_eq!(Info::new().type_, None);
    assert_eq!(num(1).type_(), None);
    let typed = Expr::Number(1, Info { type_: Some(Type::integer()) });
    assert_eq!(typed.type_(), Some(Type::integer()));
    assert_eq!(typed.clone(), typed);
}
