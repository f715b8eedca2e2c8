use chen_lang::{
    Add, And, Command, Context, Divide, Element, Equals, EvalError, Expression, If, Loop, Mod,
    Multiply, Node, Not, NotEquals, Or, Paren, Print, Println, Subtract, Value, Var, Variable, GT,
    GTE, LT, LTE,
};

fn number(i: i32) -> Box<Node> {
    Box::new(Node::Element(Element::Value(Value::Int(i))))
}

fn boolean(b: bool) -> Box<Node> {
    Box::new(Node::Element(Element::Value(Value::Bool(b))))
}

fn text(s: &str) -> Box<Node> {
    Box::new(Node::Element(Element::Value(Value::String(s.to_string()))))
}

fn void() -> Box<Node> {
    Box::new(Node::Element(Element::Value(Value::Void)))
}

fn name(s: &str) -> Box<Node> {
    Box::new(Node::Element(Element::Variable(Variable { name: s.to_string() })))
}

fn set(target: &str, right: Box<Node>) -> Node {
    Node::Var(Var { left: target.to_string(), right })
}

fn run(node: &Node) -> (Result<Option<Value>, EvalError>, Context) {
    let mut ctx = Context::default();
    let r = node.evaluate(&mut ctx);
    (r, ctx)
}

fn value_of(node: Node) -> Result<Option<Value>, EvalError> {
    run(&node).0
}

#[test]
fn test_sub_int_int() {
    let mut ctx = Context::default();
    let add = Subtract { left: number(1), right: number(1) };
    assert_eq!(add.evaluate(&mut ctx), Ok(Some(Value::Int(0))));
}

#[should_panic]
#[test]
fn test_sub_bool_int() {
    let mut ctx = Context::default();
    let add: Box<Node> = Box::new(Node::Add(Add { left: boolean(false), right: number(1) }));
    add.evaluate(&mut ctx).unwrap();
}

#[test]
fn test_add_int_int() {
    let mut ctx = Context::default();
    let add = Add { left: number(1), right: number(1) };
    assert_eq!(add.evaluate(&mut ctx), Ok(Some(Value::Int(2))));
}

#[should_panic]
#[test]
fn test_add_bool_int() {
    let mut ctx = Context::default();
    let add = Add { left: boolean(false), right: number(1) };
    add.evaluate(&mut ctx).unwrap();
}

#[test]
fn arithmetic_on_a_truth_value_is_a_type_mismatch() {
    let (r, ctx) = run(&Node::Add(Add { left: boolean(false), right: number(1) }));
    assert_eq!(r, Err(EvalError::TypeMismatch));
    assert!(ctx.output.is_empty());
    assert_eq!(
        value_of(Node::Subtract(Subtract { left: number(1), right: text("1") })),
        Err(EvalError::TypeMismatch)
    );
    assert_eq!(
        value_of(Node::LT(LT { left: boolean(true), right: number(1) })),
        Err(EvalError::TypeMismatch)
    );
    assert_eq!(
        value_of(Node::Divide(Divide { left: boolean(true), right: number(0) })),
        Err(EvalError::TypeMismatch)
    );
}

#[test]
fn arithmetic_gives_exact_values() {
    assert_eq!(
        value_of(Node::Multiply(Multiply { left: number(6), right: number(-7) })),
        Ok(Some(Value::Int(-42)))
    );
    assert_eq!(
        value_of(Node::Divide(Divide { left: number(7), right: number(2) })),
        Ok(Some(Value::Int(3)))
    );
    assert_eq!(
        value_of(Node::Divide(Divide { left: number(-7), right: number(2) })),
        Ok(Some(Value::Int(-3)))
    );
    assert_eq!(
        value_of(Node::Divide(Divide { left: number(7), right: number(-2) })),
        Ok(Some(Value::Int(-3)))
    );
    assert_eq!(
        value_of(Node::Divide(Divide { left: number(-7), right: number(-2) })),
        Ok(Some(Value::Int(3)))
    );
    assert_eq!(
        value_of(Node::Mod(Mod { left: number(5), right: number(2) })),
        Ok(Some(Value::Int(1)))
    );
    assert_eq!(
        value_of(Node::Mod(Mod { left: number(-7), right: number(2) })),
        Ok(Some(Value::Int(-1)))
    );
    assert_eq!(
        value_of(Node::Mod(Mod { left: number(7), right: number(-2) })),
        Ok(Some(Value::Int(1)))
    );
    assert_eq!(
        value_of(Node::Mod(Mod { left: number(-7), right: number(-2) })),
        Ok(Some(Value::Int(-1)))
    );
}

#[test]
fn division_agrees_with_the_machine() {
    let samples = [i32::MIN, -100, -7, -2, -1, 0, 1, 2, 7, 100, i32::MAX];
    for a in samples {
        for b in samples {
            let quotient = value_of(Node::Divide(Divide { left: number(a), right: number(b) }));
            let remainder = value_of(Node::Mod(Mod { left: number(a), right: number(b) }));
            if b == 0 {
                assert_eq!(quotient, Err(EvalError::DivisionByZero));
                assert_eq!(remainder, Err(EvalError::DivisionByZero));
            } else if a == i32::MIN && b == -1 {
                assert_eq!(quotient, Err(EvalError::Overflow));
                assert_eq!(remainder, Err(EvalError::Overflow));
            } else {
                assert_eq!(quotient, Ok(Some(Value::Int(a / b))));
                assert_eq!(remainder, Ok(Some(Value::Int(a % b))));
            }
        }
    }
}

#[test]
fn arithmetic_that_leaves_the_range_overflows() {
    assert_eq!(
        value_of(Node::Add(Add { left: number(i32::MAX), right: number(1) })),
        Err(EvalError::Overflow)
    );
    assert_eq!(
        value_of(Node::Subtract(Subtract { left: number(i32::MIN), right: number(1) })),
        Err(EvalError::Overflow)
    );
    assert_eq!(
        value_of(Node::Multiply(Multiply { left: number(65536), right: number(32768) })),
        Err(EvalError::Overflow)
    );
    assert_eq!(
        value_of(Node::Add(Add { left: number(i32::MAX), right: number(0) })),
        Ok(Some(Value::Int(i32::MAX)))
    );
}

#[test]
fn order_comparisons_give_truth_values() {
    assert_eq!(
        value_of(Node::LT(LT { left: number(1), right: number(2) })),
        Ok(Some(Value::Bool(true)))
    );
    assert_eq!(
        value_of(Node::LT(LT { left: number(2), right: number(2) })),
        Ok(Some(Value::Bool(false)))
    );
    assert_eq!(
        value_of(Node::LTE(LTE { left: number(2), right: number(2) })),
        Ok(Some(Value::Bool(true)))
    );
    assert_eq!(
        value_of(Node::GT(GT { left: number(3), right: number(2) })),
        Ok(Some(Value::Bool(true)))
    );
    assert_eq!(
        value_of(Node::GTE(GTE { left: number(1), right: number(2) })),
        Ok(Some(Value::Bool(false)))
    );
}

#[test]
fn logic_takes_truth_values_only() {
    assert_eq!(
        value_of(Node::And(And { left: boolean(true), right: boolean(false) })),
        Ok(Some(Value::Bool(false)))
    );
    assert_eq!(
        value_of(Node::Or(Or { left: boolean(true), right: boolean(false) })),
        Ok(Some(Value::Bool(true)))
    );
    assert_eq!(value_of(Node::Not(Not { expr: boolean(true) })), Ok(Some(Value::Bool(false))));
    assert_eq!(
        value_of(Node::And(And { left: number(1), right: boolean(false) })),
        Err(EvalError::TypeMismatch)
    );
    assert_eq!(value_of(Node::Not(Not { expr: number(1) })), Err(EvalError::TypeMismatch));
}

#[test]
fn both_operands_of_a_logical_operator_are_evaluated() {
    let node = Node::Or(Or { left: boolean(true), right: name("missing") });
    assert_eq!(value_of(node), Err(EvalError::UndeclaredVariable));
}

#[test]
fn values_of_different_kinds_are_unequal() {
    let kinds: Vec<fn() -> Box<Node>> =
        vec![|| number(1), || boolean(true), || text("1"), || void()];
    for (i, left) in kinds.iter().enumerate() {
        for (j, right) in kinds.iter().enumerate() {
            let equal = value_of(Node::Equals(Equals { left: left(), right: right() }));
            let unequal = value_of(Node::NotEquals(NotEquals { left: left(), right: right() }));
            assert_eq!(equal, Ok(Some(Value::Bool(i == j))));
            assert_eq!(unequal, Ok(Some(Value::Bool(i != j))));
        }
    }
}

#[test]
fn equal_kinds_compare_by_content() {
    assert_eq!(
        value_of(Node::Equals(Equals { left: number(3), right: number(3) })),
        Ok(Some(Value::Bool(true)))
    );
    assert_eq!(
        value_of(Node::Equals(Equals { left: number(3), right: number(4) })),
        Ok(Some(Value::Bool(false)))
    );
    assert_eq!(
        value_of(Node::Equals(Equals { left: text("ab"), right: text("ab") })),
        Ok(Some(Value::Bool(true)))
    );
    assert_eq!(
        value_of(Node::NotEquals(NotEquals { left: text("ab"), right: text("ba") })),
        Ok(Some(Value::Bool(true)))
    );
}

#[test]
fn missing_values_compare_equal_to_each_other_only() {
    let nothing = || Box::new(set("x", number(1)));
    assert_eq!(
        value_of(Node::Equals(Equals { left: nothing(), right: nothing() })),
        Ok(Some(Value::Bool(true)))
    );
    assert_eq!(
        value_of(Node::Equals(Equals { left: nothing(), right: void() })),
        Ok(Some(Value::Bool(false)))
    );
}

#[test]
fn value_equality_is_by_kind_and_content() {
    assert_eq!(Value::Int(1), Value::Int(1));
    assert_ne!(Value::Int(1), Value::Int(2));
    assert_ne!(Value::Int(1), Value::Bool(true));
    assert_ne!(Value::String("1".to_string()), Value::Int(1));
    assert_eq!(Value::String("a".to_string()), Value::String("a".to_string()));
    assert_eq!(Value::Void, Value::Void);
    assert_eq!(Value::String("a".to_string()).clone(), Value::String("a".to_string()));
}

#[test]
fn values_have_their_text() {
    assert_eq!(Value::Int(0).to_string(), "0");
    assert_eq!(Value::Int(7).to_string(), "7");
    assert_eq!(Value::Int(10).to_string(), "10");
    assert_eq!(Value::Int(-5).to_string(), "-5");
    assert_eq!(Value::Int(1234567890).to_string(), "1234567890");
    assert_eq!(Value::Int(i32::MAX).to_string(), "2147483647");
    assert_eq!(Value::Int(i32::MIN).to_string(), "-2147483648");
    assert_eq!(Value::Bool(true).to_string(), "true");
    assert_eq!(Value::Bool(false).to_string(), "false");
    assert_eq!(Value::Void.to_string(), "");
    assert_eq!(Value::String("x y".to_string()).to_string(), "x y");
}

#[test]
fn numerals_agree_with_the_standard_library() {
    let mut i: i64 = i32::MIN as i64;
    while i <= i32::MAX as i64 {
        let n = i as i32;
        assert_eq!(Value::Int(n).to_string(), format!("{}", n));
        i += 9_999_991;
    }
    for n in -1000..1000 {
        assert_eq!(Value::Int(n).to_string(), format!("{}", n));
    }
}

#[test]
fn a_literal_gives_itself() {
    let mut ctx = Context::default();
    assert_eq!(Value::Int(4).evaluate(&mut ctx), Ok(Some(Value::Int(4))));
    assert_eq!(
        Element::Value(Value::String("s".to_string())).evaluate(&mut ctx),
        Ok(Some(Value::String("s".to_string())))
    );
    assert_eq!(Paren { inner: number(9) }.evaluate(&mut ctx), Ok(Some(Value::Int(9))));
}

#[test]
fn a_variable_gives_what_was_assigned() {
    let mut ctx = Context::default();
    let read = Variable { name: "x".to_string() };
    assert_eq!(read.evaluate(&mut ctx), Err(EvalError::UndeclaredVariable));
    assert_eq!(Var { left: "x".to_string(), right: number(5) }.evaluate(&mut ctx), Ok(None));
    assert_eq!(read.evaluate(&mut ctx), Ok(Some(Value::Int(5))));
    assert_eq!(Var { left: "x".to_string(), right: boolean(true) }.evaluate(&mut ctx), Ok(None));
    assert_eq!(read.evaluate(&mut ctx), Ok(Some(Value::Bool(true))));
    assert_eq!(ctx.get("x"), Some(&Value::Bool(true)));
    assert_eq!(ctx.get("y"), None);
}

#[test]
fn a_statement_is_no_value() {
    let inner = Box::new(set("x", number(1)));
    assert_eq!(value_of(set("y", inner)), Err(EvalError::MissingValue));
    let printed = Box::new(Node::Print(Print { expression: number(1) }));
    let (r, ctx) = run(&Node::Print(Print { expression: printed }));
    assert_eq!(r, Err(EvalError::MissingValue));
    assert_eq!(ctx.output, vec!["1".to_string()]);
    assert_eq!(
        value_of(Node::Not(Not { expr: Box::new(set("x", boolean(true))) })),
        Err(EvalError::MissingValue)
    );
    assert_eq!(
        value_of(Node::Add(Add { left: Box::new(set("x", number(1))), right: number(1) })),
        Err(EvalError::TypeMismatch)
    );
}

#[test]
fn print_appends_one_fragment() {
    let mut ctx = Context::default();
    assert_eq!(Print { expression: number(12) }.evaluate(&mut ctx), Ok(None));
    assert_eq!(Println { expression: text("ab") }.evaluate(&mut ctx), Ok(None));
    assert_eq!(Println { expression: void() }.evaluate(&mut ctx), Ok(None));
    assert_eq!(Print { expression: boolean(false) }.evaluate(&mut ctx), Ok(None));
    assert_eq!(
        ctx.output,
        vec!["12".to_string(), "ab\n".to_string(), "\n".to_string(), "false".to_string()]
    );
}

#[test]
fn a_command_gives_its_last_result() {
    let mut ctx = Context::default();
    let empty: Command = vec![].into();
    assert_eq!(empty.evaluate(&mut ctx), Ok(None));
    let two: Command = vec![*number(1), *number(2)].into();
    assert_eq!(two.evaluate(&mut ctx), Ok(Some(Value::Int(2))));
    let ends_with_statement: Command = vec![*number(1), set("x", number(2))].into();
    assert_eq!(ends_with_statement.evaluate(&mut ctx), Ok(None));
    let failing: Command = vec![
        Node::Print(Print { expression: number(1) }),
        *name("nobody"),
        Node::Print(Print { expression: number(2) }),
    ].into();
    assert_eq!(failing.evaluate(&mut ctx), Err(EvalError::UndeclaredVariable));
    assert_eq!(ctx.output, vec!["1".to_string()]);
}

#[test]
fn a_conditional_takes_one_block() {
    let branch = |flag: bool| {
        Node::If(If {
            predict: boolean(flag),
            cmd: vec![Node::Print(Print { expression: text("then") })].into(),
            else_cmd: vec![Node::Print(Print { expression: text("else") })].into(),
        })
    };
    let (r, ctx) = run(&branch(true));
    assert_eq!(r, Ok(None));
    assert_eq!(ctx.output, vec!["then".to_string()]);
    let (r, ctx) = run(&branch(false));
    assert_eq!(r, Ok(None));
    assert_eq!(ctx.output, vec!["else".to_string()]);
    let without_else = Node::If(If { predict: boolean(false), cmd: vec![*number(1)].into(), else_cmd: vec![].into() });
    assert_eq!(value_of(without_else), Ok(None));
    let valued = Node::If(If { predict: boolean(true), cmd: vec![*number(1)].into(), else_cmd: vec![].into() });
    assert_eq!(value_of(valued), Ok(None));
}

#[test]
fn a_condition_must_be_a_truth_value() {
    let on_number = Node::If(If { predict: number(1), cmd: vec![].into(), else_cmd: vec![].into() });
    assert_eq!(value_of(on_number), Err(EvalError::TypeMismatch));
    let on_nothing =
        Node::If(If { predict: Box::new(set("x", number(1))), cmd: vec![].into(), else_cmd: vec![].into() });
    assert_eq!(value_of(on_nothing), Err(EvalError::TypeMismatch));
    let looping = Node::Loop(Loop { predict: number(0), cmd: vec![].into() });
    assert_eq!(value_of(looping), Err(EvalError::TypeMismatch));
    let failing = Node::Loop(Loop { predict: name("nobody"), cmd: vec![].into() });
    assert_eq!(value_of(failing), Err(EvalError::UndeclaredVariable));
}

#[test]
fn assignment_inside_a_block_is_visible_after_it() {
    let program: Command = vec![
        set("x", number(1)),
        Node::If(If {
            predict: boolean(true),
            cmd: vec![set("x", number(2)), set("fresh", number(3))].into(),
            else_cmd: vec![].into(),
        }),
        Node::Command(vec![set("deep", number(4))].into()),
        Node::Add(Add {
            left: Box::new(Node::Add(Add { left: name("x"), right: name("fresh") })),
            right: name("deep"),
        }),
    ].into();
    let mut ctx = Context::default();
    assert_eq!(program.evaluate(&mut ctx), Ok(Some(Value::Int(9))));
    assert_eq!(ctx.get("x"), Some(&Value::Int(2)));
    assert_eq!(ctx.get("fresh"), Some(&Value::Int(3)));
    assert_eq!(ctx.get("deep"), Some(&Value::Int(4)));
}

#[test]
fn assignment_inside_a_loop_is_visible_after_it() {
    let program: Command = vec![
        set("go", boolean(true)),
        Node::Loop(Loop {
            predict: name("go"),
            cmd: vec![set("go", boolean(false)), set("seen", number(7))].into(),
        }),
        *name("seen"),
    ].into();
    let mut ctx = Context::default();
    assert_eq!(program.evaluate(&mut ctx), Ok(Some(Value::Int(7))));
    assert_eq!(ctx.get("go"), Some(&Value::Bool(false)));
}

fn countdown_from(start: i32) -> Command {
    Command::from(vec![
        set("i", number(start)),
        set("rounds", number(0)),
        Node::Loop(Loop {
            predict: Box::new(Node::NotEquals(NotEquals { left: number(0), right: name("i") })),
            cmd: vec![
                set("rounds", Box::new(Node::Add(Add { left: name("rounds"), right: number(1) }))),
                set("i", Box::new(Node::Subtract(Subtract { left: name("i"), right: number(1) }))),
            ].into(),
        }),
    ])
}

#[test]
fn a_countdown_from_three_runs_three_times() {
    let mut ctx = Context::default();
    assert_eq!(countdown_from(3).evaluate(&mut ctx), Ok(None));
    assert_eq!(ctx.get("i"), Some(&Value::Int(0)));
    assert_eq!(ctx.get("rounds"), Some(&Value::Int(3)));
    assert!(ctx.output.is_empty());
}

#[test]
fn a_loop_may_run_as_often_as_the_limit_says() {
    let mut ctx = Context::with_loop_limit(3);
    assert_eq!(countdown_from(3).evaluate(&mut ctx), Ok(None));
    assert_eq!(ctx.get("rounds"), Some(&Value::Int(3)));
    let mut ctx = Context::with_loop_limit(2);
    assert_eq!(countdown_from(3).evaluate(&mut ctx), Err(EvalError::LoopLimit));
    assert_eq!(ctx.get("rounds"), Some(&Value::Int(2)));
    assert_eq!(ctx.get("i"), Some(&Value::Int(1)));
    let mut ctx = Context::with_loop_limit(0);
    assert_eq!(countdown_from(0).evaluate(&mut ctx), Ok(None));
    assert_eq!(countdown_from(1).evaluate(&mut ctx), Err(EvalError::LoopLimit));
}

#[test]
fn the_limit_holds_for_each_activation_of_a_loop() {
    let inner = Node::Loop(Loop {
        predict: Box::new(Node::NotEquals(NotEquals { left: number(0), right: name("j") })),
        cmd: vec![
            set("j", Box::new(Node::Subtract(Subtract { left: name("j"), right: number(1) }))),
            set("total", Box::new(Node::Add(Add { left: name("total"), right: number(1) }))),
        ].into(),
    });
    let program: Command = vec![
        set("i", number(2)),
        set("total", number(0)),
        Node::Loop(Loop {
            predict: Box::new(Node::NotEquals(NotEquals { left: number(0), right: name("i") })),
            cmd: vec![
                set("j", number(2)),
                inner,
                set("i", Box::new(Node::Subtract(Subtract { left: name("i"), right: number(1) }))),
            ].into(),
        }),
    ].into();
    let mut ctx = Context::with_loop_limit(2);
    assert_eq!(program.evaluate(&mut ctx), Ok(None));
    assert_eq!(ctx.get("total"), Some(&Value::Int(4)));
}

#[test]
fn a_new_context_is_empty() {
    let ctx = Context::default();
    assert!(ctx.output.is_empty());
    assert_eq!(ctx.variables.len(), 0);
    assert_eq!(ctx.loop_limit, u64::MAX);
    let ctx = Context::with_loop_limit(5);
    assert_eq!(ctx.loop_limit, 5);
    assert_eq!(ctx.get("x"), None);
}

#[test]
fn a_context_stores_and_emits() {
    let mut ctx = Context::default();
    ctx.assign("a".to_string(), Value::Int(1));
    ctx.assign("b".to_string(), Value::Int(2));
    ctx.assign("a".to_string(), Value::Int(3));
    ctx.emit("one".to_string());
    ctx.emit("two".to_string());
    assert_eq!(ctx.get("a"), Some(&Value::Int(3)));
    assert_eq!(ctx.get("b"), Some(&Value::Int(2)));
    assert_eq!(ctx.variables.len(), 2);
    assert_eq!(ctx.output, vec!["one".to_string(), "two".to_string()]);
}

#[test]
fn errors_describe_themselves() {
    assert_eq!(EvalError::DivisionByZero.describe(), "division by zero");
    assert_eq!(EvalError::UndeclaredVariable.describe(), "use of undeclared variable");
    assert_eq!(EvalError::TypeMismatch.describe(), "operand of the wrong type");
    assert_eq!(EvalError::MissingValue.describe(), "statement used as a value");
    assert_eq!(EvalError::Overflow.describe(), "integer overflow");
    assert_eq!(EvalError::LoopLimit.describe(), "loop limit reached");
}
