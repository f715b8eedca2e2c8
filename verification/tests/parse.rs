use chen_lang::{
    get_priority, parse_assign, parse_block, parse_declare, parse_expression, parse_for, parse_if,
    parse_print, Add, And, Command, Context, Divide, Element, Equals, If, Keyword, Loop, Mod, Multiply, Node, Not,
    Expression, NotEquals, Operator, Or, ParseError, Print, Println, StdFunction, Subtract, Token,
    Value, Var, Variable, GT, GTE, LT, LTE,
};

fn id(name: &str) -> Token {
    Token::Identifier(name.to_string())
}

fn num(i: i32) -> Token {
    Token::Int(i)
}

fn op(operator: Operator) -> Token {
    Token::Operator(operator)
}

fn key(keyword: Keyword) -> Token {
    Token::Keyword(keyword)
}

fn print_token(newline: bool) -> Token {
    Token::StdFunction(StdFunction::Print(newline))
}

fn var(name: &str) -> Node {
    Node::Element(Element::Variable(Variable { name: name.to_string() }))
}

fn lit(i: i32) -> Node {
    Node::Element(Element::Value(Value::Int(i)))
}

fn add(left: Node, right: Node) -> Node {
    Node::Add(Add { left: Box::new(left), right: Box::new(right) })
}

fn sub(left: Node, right: Node) -> Node {
    Node::Subtract(Subtract { left: Box::new(left), right: Box::new(right) })
}

fn mul(left: Node, right: Node) -> Node {
    Node::Multiply(Multiply { left: Box::new(left), right: Box::new(right) })
}

fn one(node: Node) -> Node {
    Node::Command(vec![node].into())
}

fn assign(name: &str, right: Node) -> Node {
    Node::Var(Var { left: name.to_string(), right: Box::new(right) })
}

fn lines(source: Vec<Vec<Token>>) -> Vec<Box<[Token]>> {
    source.into_iter().map(|line| line.into_boxed_slice()).collect()
}

#[test]
fn priorities_are_in_three_tiers() {
    assert_eq!(get_priority(&Token::LParen), 0);
    assert_eq!(get_priority(&Token::RParen), 0);
    assert_eq!(get_priority(&op(Operator::NOT)), 0);
    assert_eq!(get_priority(&op(Operator::ADD)), 1);
    assert_eq!(get_priority(&op(Operator::Subtract)), 1);
    assert_eq!(get_priority(&op(Operator::Assign)), 1);
    for operator in [
        Operator::Multiply,
        Operator::Divide,
        Operator::Mod,
        Operator::Equals,
        Operator::NotEquals,
        Operator::GT,
        Operator::LT,
        Operator::GTE,
        Operator::LTE,
    ] {
        assert_eq!(get_priority(&op(operator)), 2);
    }
    assert_eq!(get_priority(&op(Operator::And)), -1);
    assert_eq!(get_priority(&op(Operator::Or)), -1);
    for operand in [
        id("x"),
        num(1),
        Token::Bool(true),
        Token::String("s".to_string()),
        key(Keyword::IF),
        Token::LBig,
        Token::RBig,
        print_token(false),
    ] {
        assert_eq!(get_priority(&operand), 100);
    }
}

#[test]
fn an_empty_expression_is_refused() {
    assert_eq!(parse_expression(&[]), Err(ParseError::EmptyExpression));
}

#[test]
fn an_operand_alone_is_an_expression() {
    assert_eq!(parse_expression(&[num(5)]), Ok(one(lit(5))));
    assert_eq!(parse_expression(&[id("x")]), Ok(one(var("x"))));
    assert_eq!(
        parse_expression(&[Token::Bool(true)]),
        Ok(one(Node::Element(Element::Value(Value::Bool(true)))))
    );
    assert_eq!(
        parse_expression(&[Token::String("hi".to_string())]),
        Ok(one(Node::Element(Element::Value(Value::String("hi".to_string())))))
    );
}

#[test]
fn sums_group_from_the_left() {
    let tokens = [id("a"), op(Operator::Subtract), id("b"), op(Operator::ADD), id("c")];
    assert_eq!(parse_expression(&tokens), Ok(one(add(sub(var("a"), var("b")), var("c")))));
    let tokens = [num(11), op(Operator::Subtract), id("i"), op(Operator::ADD), id("j")];
    assert_eq!(parse_expression(&tokens), Ok(one(add(sub(lit(11), var("i")), var("j")))));
    let tokens = [
        num(1),
        op(Operator::ADD),
        num(2),
        op(Operator::Subtract),
        num(3),
        op(Operator::Subtract),
        num(4),
    ];
    assert_eq!(
        parse_expression(&tokens),
        Ok(one(sub(sub(add(lit(1), lit(2)), lit(3)), lit(4))))
    );
}

#[test]
fn products_bind_tighter_than_sums() {
    let tokens = [id("a"), op(Operator::ADD), id("b"), op(Operator::Multiply), id("c")];
    assert_eq!(parse_expression(&tokens), Ok(one(add(var("a"), mul(var("b"), var("c"))))));
    let tokens = [id("a"), op(Operator::Multiply), id("b"), op(Operator::ADD), id("c")];
    assert_eq!(parse_expression(&tokens), Ok(one(add(mul(var("a"), var("b")), var("c")))));
    let tokens = [
        num(1),
        op(Operator::Subtract),
        num(2),
        op(Operator::Divide),
        num(3),
        op(Operator::Mod),
        num(4),
        op(Operator::ADD),
        num(5),
    ];
    let quotient = Node::Divide(Divide { left: Box::new(lit(2)), right: Box::new(lit(3)) });
    let rest = Node::Mod(Mod { left: Box::new(quotient), right: Box::new(lit(4)) });
    assert_eq!(parse_expression(&tokens), Ok(one(add(sub(lit(1), rest), lit(5)))));
}

#[test]
fn parentheses_group_arithmetic() {
    let tokens = [
        Token::LParen,
        id("a"),
        op(Operator::ADD),
        id("b"),
        Token::RParen,
        op(Operator::Multiply),
        id("c"),
    ];
    assert_eq!(parse_expression(&tokens), Ok(one(mul(add(var("a"), var("b")), var("c")))));
    let tokens = [
        id("a"),
        op(Operator::Subtract),
        Token::LParen,
        id("b"),
        op(Operator::ADD),
        id("c"),
        Token::RParen,
    ];
    assert_eq!(parse_expression(&tokens), Ok(one(sub(var("a"), add(var("b"), var("c"))))));
}

#[test]
fn parentheses_nest() {
    let tokens = [
        id("a"),
        op(Operator::Multiply),
        Token::LParen,
        id("b"),
        op(Operator::ADD),
        id("c"),
        op(Operator::Multiply),
        Token::LParen,
        id("d"),
        op(Operator::Subtract),
        id("e"),
        Token::RParen,
        Token::RParen,
        op(Operator::Subtract),
        Token::LParen,
        Token::LParen,
        id("f"),
        Token::RParen,
        Token::RParen,
    ];
    let inner = add(var("b"), mul(var("c"), sub(var("d"), var("e"))));
    assert_eq!(parse_expression(&tokens), Ok(one(sub(mul(var("a"), inner), var("f")))));
}

#[test]
fn every_binary_operator_has_its_node() {
    let build = |operator: Operator| {
        parse_expression(&[num(1), op(operator), num(2)]).map(|node| match node {
            Node::Command(mut items) => items.pop_back().unwrap(),
            other => other,
        })
    };
    let left = || Box::new(lit(1));
    let right = || Box::new(lit(2));
    assert_eq!(build(Operator::ADD), Ok(Node::Add(Add { left: left(), right: right() })));
    assert_eq!(
        build(Operator::Subtract),
        Ok(Node::Subtract(Subtract { left: left(), right: right() }))
    );
    assert_eq!(
        build(Operator::Multiply),
        Ok(Node::Multiply(Multiply { left: left(), right: right() }))
    );
    assert_eq!(build(Operator::Divide), Ok(Node::Divide(Divide { left: left(), right: right() })));
    assert_eq!(build(Operator::Mod), Ok(Node::Mod(Mod { left: left(), right: right() })));
    assert_eq!(build(Operator::Equals), Ok(Node::Equals(Equals { left: left(), right: right() })));
    assert_eq!(
        build(Operator::NotEquals),
        Ok(Node::NotEquals(NotEquals { left: left(), right: right() }))
    );
    assert_eq!(build(Operator::GT), Ok(Node::GT(GT { left: left(), right: right() })));
    assert_eq!(build(Operator::LT), Ok(Node::LT(LT { left: left(), right: right() })));
    assert_eq!(build(Operator::GTE), Ok(Node::GTE(GTE { left: left(), right: right() })));
    assert_eq!(build(Operator::LTE), Ok(Node::LTE(LTE { left: left(), right: right() })));
    assert_eq!(build(Operator::And), Ok(Node::And(And { left: left(), right: right() })));
    assert_eq!(build(Operator::Or), Ok(Node::Or(Or { left: left(), right: right() })));
    assert_eq!(build(Operator::Assign), Err(ParseError::UnexpectedAssign));
    assert_eq!(build(Operator::NOT), Ok(Node::Not(Not { expr: right() })));
}

#[test]
fn negation_wraps_what_follows() {
    let tokens = [op(Operator::NOT), id("a")];
    assert_eq!(
        parse_expression(&tokens),
        Ok(one(Node::Not(Not { expr: Box::new(var("a")) })))
    );
    let tokens = [id("a"), op(Operator::And), op(Operator::NOT), id("b")];
    assert_eq!(
        parse_expression(&tokens),
        Ok(one(Node::And(And {
            left: Box::new(var("a")),
            right: Box::new(Node::Not(Not { expr: Box::new(var("b")) })),
        })))
    );
}

#[test]
fn comparisons_bind_tighter_than_logic() {
    let tokens = [
        id("a"),
        op(Operator::LT),
        id("b"),
        op(Operator::And),
        id("c"),
        op(Operator::GT),
        id("d"),
    ];
    let left = Node::LT(LT { left: Box::new(var("a")), right: Box::new(var("b")) });
    let right = Node::GT(GT { left: Box::new(var("c")), right: Box::new(var("d")) });
    assert_eq!(
        parse_expression(&tokens),
        Ok(one(Node::And(And { left: Box::new(left), right: Box::new(right) })))
    );
}

#[test]
fn what_is_left_over_stays_in_the_block() {
    assert_eq!(parse_expression(&[num(1), num(2)]), Ok(Node::Command(vec![lit(1), lit(2)].into())));
    assert_eq!(parse_expression(&[Token::LParen, Token::RParen]), Ok(Node::Command(vec![].into())));
}

#[test]
fn malformed_expressions_are_refused() {
    assert_eq!(parse_expression(&[op(Operator::ADD)]), Err(ParseError::MissingOperand));
    assert_eq!(parse_expression(&[num(1), op(Operator::ADD)]), Err(ParseError::MissingOperand));
    assert_eq!(parse_expression(&[op(Operator::NOT)]), Err(ParseError::MissingOperand));
    assert_eq!(
        parse_expression(&[id("a"), op(Operator::Assign), num(1)]),
        Err(ParseError::UnexpectedAssign)
    );
    assert_eq!(
        parse_expression(&[num(1), op(Operator::ADD), key(Keyword::IF)]),
        Err(ParseError::UnexpectedToken)
    );
    assert_eq!(parse_expression(&[Token::LBig]), Err(ParseError::UnexpectedToken));
    assert_eq!(parse_expression(&[print_token(true)]), Err(ParseError::UnexpectedToken));
}

#[test]
fn a_declaration_is_an_assignment() {
    let tokens = [key(Keyword::LET), id("x"), op(Operator::Assign), num(1), op(Operator::ADD), num(2)];
    assert_eq!(parse_declare(&tokens), Ok(assign("x", one(add(lit(1), lit(2))))));
    let tokens = [key(Keyword::CONST), id("y"), op(Operator::Assign), id("x")];
    assert_eq!(parse_declare(&tokens), Ok(assign("y", one(var("x")))));
}

#[test]
fn malformed_declarations_are_refused() {
    assert_eq!(parse_declare(&[]), Err(ParseError::MalformedDeclaration));
    assert_eq!(
        parse_declare(&[key(Keyword::LET), id("x")]),
        Err(ParseError::MalformedDeclaration)
    );
    assert_eq!(
        parse_declare(&[key(Keyword::IF), id("x"), op(Operator::Assign), num(1)]),
        Err(ParseError::MalformedDeclaration)
    );
    assert_eq!(
        parse_declare(&[key(Keyword::LET), num(1), op(Operator::Assign), num(1)]),
        Err(ParseError::MalformedDeclaration)
    );
    assert_eq!(
        parse_declare(&[key(Keyword::LET), id("x"), op(Operator::Assign)]),
        Err(ParseError::EmptyExpression)
    );
}

#[test]
fn an_assignment_names_its_target() {
    let tokens = [id("i"), op(Operator::Assign), id("i"), op(Operator::Subtract), num(1)];
    assert_eq!(parse_assign(&tokens), Ok(assign("i", one(sub(var("i"), lit(1))))));
}

#[test]
fn malformed_assignments_are_refused() {
    assert_eq!(parse_assign(&[]), Err(ParseError::MalformedAssignment));
    assert_eq!(parse_assign(&[id("i")]), Err(ParseError::MalformedAssignment));
    assert_eq!(
        parse_assign(&[num(1), op(Operator::Assign), num(1)]),
        Err(ParseError::MalformedAssignment)
    );
    assert_eq!(parse_assign(&[id("i"), op(Operator::Assign)]), Err(ParseError::EmptyExpression));
}

#[test]
fn print_takes_what_stands_between_the_parentheses() {
    let tokens = [print_token(false), Token::LParen, num(5), op(Operator::Mod), num(2), Token::RParen];
    let argument = one(Node::Mod(Mod { left: Box::new(lit(5)), right: Box::new(lit(2)) }));
    assert_eq!(
        parse_print(&tokens, false),
        Ok(Node::Print(Print { expression: Box::new(argument) }))
    );
    let tokens = [print_token(true), Token::LParen, id("i"), Token::RParen];
    assert_eq!(
        parse_print(&tokens, true),
        Ok(Node::Println(Println { expression: Box::new(one(var("i"))) }))
    );
}

#[test]
fn malformed_prints_are_refused() {
    assert_eq!(parse_print(&[print_token(false)], false), Err(ParseError::MalformedPrint));
    assert_eq!(
        parse_print(&[print_token(false), Token::LParen], false),
        Err(ParseError::MalformedPrint)
    );
    assert_eq!(
        parse_print(&[print_token(false), Token::LParen, Token::RParen], false),
        Err(ParseError::EmptyExpression)
    );
}

fn countdown_lines() -> Vec<Box<[Token]>> {
    lines(vec![
        vec![id("i"), op(Operator::Assign), num(3)],
        vec![key(Keyword::FOR), num(0), op(Operator::NotEquals), id("i"), Token::LBig],
        vec![print_token(true), Token::LParen, id("i"), Token::RParen],
        vec![id("i"), op(Operator::Assign), id("i"), op(Operator::Subtract), num(1)],
        vec![Token::RBig],
    ])
}

fn countdown_loop() -> Node {
    Node::Loop(Loop {
        predict: Box::new(one(Node::NotEquals(NotEquals {
            left: Box::new(lit(0)),
            right: Box::new(var("i")),
        }))),
        cmd: vec![
            Node::Println(Println { expression: Box::new(one(var("i"))) }),
            assign("i", one(sub(var("i"), lit(1)))),
        ].into(),
    })
}

#[test]
fn a_loop_owns_the_lines_up_to_its_closing_brace() {
    let source = countdown_lines();
    assert_eq!(parse_for(&source, 1), Ok((4, countdown_loop())));
    assert_eq!(
        parse_block(&source, 0),
        Ok((5, Command::from(vec![assign("i", one(lit(3))), countdown_loop()])))
    );
    assert_eq!(
        parse_block(&source, 2),
        Ok((4, Command::from(vec![
            Node::Println(Println { expression: Box::new(one(var("i"))) }),
            assign("i", one(sub(var("i"), lit(1)))),
        ])))
    );
}

#[test]
fn a_block_stops_at_a_closing_brace_and_at_the_end() {
    let source = countdown_lines();
    assert_eq!(parse_block(&source, 4), Ok((4, Command::from(vec![]))));
    assert_eq!(parse_block(&source, 5), Ok((5, Command::from(vec![]))));
    assert_eq!(parse_block(&source, 9), Ok((9, Command::from(vec![]))));
    assert_eq!(parse_block(&[], 0), Ok((0, Command::from(vec![]))));
}

fn branch_lines(with_else: bool) -> Vec<Box<[Token]>> {
    let mut source = vec![
        vec![key(Keyword::IF), id("a"), op(Operator::GT), num(1), Token::LBig],
        vec![id("x"), op(Operator::Assign), num(1)],
    ];
    if with_else {
        source.push(vec![Token::RBig]);
        source.push(vec![key(Keyword::ELSE), Token::LBig]);
        source.push(vec![id("x"), op(Operator::Assign), num(2)]);
        source.push(vec![id("y"), op(Operator::Assign), num(3)]);
    }
    source.push(vec![Token::RBig]);
    source.push(vec![print_token(false), Token::LParen, id("x"), Token::RParen]);
    lines(source)
}

#[test]
fn a_conditional_may_have_a_second_block() {
    let condition =
        || Box::new(one(Node::GT(GT { left: Box::new(var("a")), right: Box::new(lit(1)) })));
    let source = branch_lines(false);
    let plain = Node::If(If {
        predict: condition(),
        cmd: vec![assign("x", one(lit(1)))].into(),
        else_cmd: vec![].into(),
    });
    assert_eq!(parse_if(&source, 0), Ok((2, plain)));
    let source = branch_lines(true);
    let both = || {
        Node::If(If {
            predict: condition(),
            cmd: vec![assign("x", one(lit(1)))].into(),
            else_cmd: vec![assign("x", one(lit(2))), assign("y", one(lit(3)))].into(),
        })
    };
    assert_eq!(parse_if(&source, 0), Ok((6, both())));
    let shown = Node::Print(Print { expression: Box::new(one(var("x"))) });
    assert_eq!(parse_block(&source, 0), Ok((8, Command::from(vec![both(), shown]))));
}

fn false_branch_lines() -> Vec<Box<[Token]>> {
    lines(vec![
        vec![key(Keyword::IF), Token::Bool(false), Token::LBig],
        vec![id("x"), op(Operator::Assign), num(1)],
        vec![Token::RBig],
        vec![key(Keyword::ELSE), Token::LBig],
        vec![id("x"), op(Operator::Assign), num(2)],
        vec![Token::RBig],
    ])
}

#[test]
fn the_else_header_stands_on_the_line_after_the_closing_brace() {
    let source = false_branch_lines();
    let expected = Node::If(If {
        predict: Box::new(one(Node::Element(Element::Value(Value::Bool(false))))),
        cmd: vec![assign("x", one(lit(1)))].into(),
        else_cmd: vec![assign("x", one(lit(2)))].into(),
    });
    assert_eq!(parse_if(&source, 0), Ok((5, expected)));
    let (close, node) = parse_if(&source, 0).unwrap();
    assert_eq!(close, 5);
    let mut ctx = Context::default();
    assert_eq!(node.evaluate(&mut ctx), Ok(None));
    assert_eq!(ctx.get("x"), Some(&Value::Int(2)));
    assert_eq!(ctx.variables.len(), 1);
    let (end, program) = parse_block(&source, 0).unwrap();
    assert_eq!(end, 6);
    assert_eq!(program.len(), 1);
}

#[test]
fn a_conditional_without_else_ends_at_its_closing_brace() {
    let source = lines(vec![
        vec![key(Keyword::IF), id("a"), Token::LBig],
        vec![Token::RBig],
    ]);
    let bare = || {
        Node::If(If {
            predict: Box::new(one(var("a"))),
            cmd: Command::new(),
            else_cmd: Command::new(),
        })
    };
    assert_eq!(parse_if(&source, 0), Ok((1, bare())));
    let source = lines(vec![
        vec![key(Keyword::IF), id("a"), Token::LBig],
        vec![Token::RBig],
        vec![id("x"), op(Operator::Assign), num(1)],
        vec![key(Keyword::ELSE), Token::LBig],
        vec![Token::RBig],
    ]);
    assert_eq!(parse_if(&source, 0), Ok((1, bare())));
    assert_eq!(parse_block(&source, 0), Err(ParseError::UnsupportedStatement));
}

#[test]
fn a_closing_brace_stands_alone() {
    let source = lines(vec![
        vec![key(Keyword::IF), id("a"), Token::LBig],
        vec![id("x"), op(Operator::Assign), num(1)],
        vec![Token::RBig, key(Keyword::ELSE), Token::LBig],
        vec![id("x"), op(Operator::Assign), num(2)],
        vec![Token::RBig],
    ]);
    assert_eq!(parse_if(&source, 0), Err(ParseError::UnsupportedStatement));
    let source = lines(vec![vec![Token::RBig, Token::RBig]]);
    assert_eq!(parse_block(&source, 0), Err(ParseError::UnsupportedStatement));
    let source = lines(vec![vec![Token::RBig], vec![id("x"), op(Operator::Assign), num(1)]]);
    assert_eq!(parse_block(&source, 0), Ok((0, Command::from(vec![]))));
}

#[test]
fn blocks_nest() {
    let source = lines(vec![
        vec![key(Keyword::FOR), id("a"), Token::LBig],
        vec![key(Keyword::IF), id("b"), Token::LBig],
        vec![Token::LBig],
        vec![id("x"), op(Operator::Assign), num(1)],
        vec![Token::RBig],
        vec![Token::RBig],
        vec![id("y"), op(Operator::Assign), num(2)],
        vec![Token::RBig],
        vec![id("z"), op(Operator::Assign), num(3)],
    ]);
    let inner = Node::If(If {
        predict: Box::new(one(var("b"))),
        cmd: vec![Node::Command(vec![assign("x", one(lit(1)))].into())].into(),
        else_cmd: vec![].into(),
    });
    let outer = Node::Loop(Loop {
        predict: Box::new(one(var("a"))),
        cmd: vec![inner, assign("y", one(lit(2)))].into(),
    });
    assert_eq!(parse_block(&source, 0), Ok((9, Command::from(vec![outer, assign("z", one(lit(3)))]))));
}

#[test]
fn a_bare_block_is_one_statement() {
    let source = lines(vec![
        vec![Token::LBig],
        vec![id("x"), op(Operator::Assign), num(1)],
        vec![Token::RBig],
        vec![id("y"), op(Operator::Assign), num(2)],
    ]);
    assert_eq!(
        parse_block(&source, 0),
        Ok((4, Command::from(vec![
            Node::Command(vec![assign("x", one(lit(1)))].into()),
            assign("y", one(lit(2))),
        ])))
    );
}

#[test]
fn a_block_must_be_closed() {
    let source = lines(vec![
        vec![key(Keyword::FOR), id("a"), Token::LBig],
        vec![id("x"), op(Operator::Assign), num(1)],
    ]);
    assert_eq!(parse_for(&source, 0), Err(ParseError::UnclosedBlock));
    assert_eq!(parse_block(&source, 0), Err(ParseError::UnclosedBlock));
    let source = lines(vec![
        vec![key(Keyword::IF), id("a"), Token::LBig],
        vec![id("x"), op(Operator::Assign), num(1)],
    ]);
    assert_eq!(parse_if(&source, 0), Err(ParseError::UnclosedBlock));
    let source = lines(vec![
        vec![key(Keyword::IF), id("a"), Token::LBig],
        vec![Token::RBig],
        vec![key(Keyword::ELSE), Token::LBig],
        vec![id("x"), op(Operator::Assign), num(1)],
    ]);
    assert_eq!(parse_if(&source, 0), Err(ParseError::UnclosedBlock));
    let source = lines(vec![vec![Token::LBig], vec![id("x"), op(Operator::Assign), num(1)]]);
    assert_eq!(parse_block(&source, 0), Err(ParseError::UnclosedBlock));
}

#[test]
fn a_header_must_hold_a_condition() {
    let source = lines(vec![vec![key(Keyword::FOR)], vec![Token::RBig]]);
    assert_eq!(parse_for(&source, 0), Err(ParseError::MalformedHeader));
    let source = lines(vec![vec![key(Keyword::IF), Token::LBig], vec![Token::RBig]]);
    assert_eq!(parse_if(&source, 0), Err(ParseError::EmptyExpression));
    let source = lines(vec![vec![], vec![Token::RBig]]);
    assert_eq!(parse_if(&source, 0), Err(ParseError::MalformedHeader));
}

#[test]
fn the_body_is_read_before_the_condition() {
    let source = lines(vec![
        vec![key(Keyword::FOR), Token::LBig],
        vec![key(Keyword::ELSE)],
        vec![Token::RBig],
    ]);
    assert_eq!(parse_for(&source, 0), Err(ParseError::UnsupportedStatement));
}

#[test]
fn a_header_past_the_last_line_is_refused() {
    let source = countdown_lines();
    assert_eq!(parse_for(&source, 5), Err(ParseError::NoSuchLine));
    assert_eq!(parse_if(&source, 5), Err(ParseError::NoSuchLine));
    assert_eq!(parse_if(&source, usize::MAX), Err(ParseError::NoSuchLine));
    assert_eq!(parse_for(&[], 0), Err(ParseError::NoSuchLine));
}

#[test]
fn lines_that_start_no_statement_are_refused() {
    let source = lines(vec![vec![num(1), op(Operator::ADD), num(2)]]);
    assert_eq!(parse_block(&source, 0), Err(ParseError::UnsupportedStatement));
    let source = lines(vec![vec![key(Keyword::ELSE), Token::LBig]]);
    assert_eq!(parse_block(&source, 0), Err(ParseError::UnsupportedStatement));
    let source = lines(vec![vec![id("x"), op(Operator::Assign), num(1)], vec![]]);
    assert_eq!(parse_block(&source, 0), Err(ParseError::EmptyLine));
    let source = lines(vec![vec![id("x")]]);
    assert_eq!(parse_block(&source, 0), Err(ParseError::MalformedAssignment));
    let source = lines(vec![vec![key(Keyword::LET), id("x")]]);
    assert_eq!(parse_block(&source, 0), Err(ParseError::MalformedDeclaration));
    let source = lines(vec![vec![print_token(true)]]);
    assert_eq!(parse_block(&source, 0), Err(ParseError::MalformedPrint));
}

#[test]
fn the_first_failure_fails_the_block() {
    let source = lines(vec![
        vec![id("x"), op(Operator::Assign)],
        vec![num(1)],
    ]);
    assert_eq!(parse_block(&source, 0), Err(ParseError::EmptyExpression));
}

#[test]
fn tokens_can_be_copied_and_compared() {
    let tokens = [id("x"), num(1), Token::String("s".to_string()), Token::LParen, key(Keyword::FOR)];
    for token in &tokens {
        assert_eq!(&token.clone(), token);
    }
    assert_ne!(id("x"), id("y"));
    assert!(Token::RBig.is_rbig());
    assert!(!Token::LBig.is_rbig());
    assert!(Token::LParen.is_lparen());
    assert!(Token::RParen.is_rparen());
    assert!(key(Keyword::ELSE).is_else());
    assert!(!key(Keyword::IF).is_else());
}

#[test]
fn parse_errors_describe_themselves() {
    assert_eq!(ParseError::EmptyExpression.describe(), "expected an expression");
    assert_eq!(ParseError::UnexpectedAssign.describe(), "assignment inside an expression");
    assert_eq!(ParseError::MissingOperand.describe(), "operator without operand");
    assert_eq!(ParseError::UnexpectedToken.describe(), "token cannot stand in an expression");
    assert_eq!(ParseError::EmptyLine.describe(), "empty line");
    assert_eq!(ParseError::NoSuchLine.describe(), "no such line");
    assert_eq!(ParseError::MalformedDeclaration.describe(), "malformed declaration");
    assert_eq!(ParseError::MalformedAssignment.describe(), "malformed assignment");
    assert_eq!(ParseError::MalformedHeader.describe(), "malformed if or for line");
    assert_eq!(ParseError::MalformedPrint.describe(), "malformed print");
    assert_eq!(ParseError::UnclosedBlock.describe(), "block is not closed");
    assert_eq!(ParseError::UnsupportedStatement.describe(), "unsupported statement");
}
