use std::rc::Rc;

use front_end::file::identifier::{Identifier, Namespace};
use front_end::file::source_file::SourceFile;
use front_end::file::trace::Trace;
use front_end::ir::visibility::Visibility;
use front_end::parser::ast::data::{UnvalidatedType, UnvalidatedVariableInfo};
use front_end::parser::ast::expression::UnvalidatedExpression;
use front_end::parser::ast::expression::UnvalidatedExpression as E;
use front_end::parser::ast::function::{UnvalidatedFunctionExpression, UnvalidatedFunctionPrototype};
use front_end::lexer::keyword::Keyword;
use front_end::lexer::token::{Operator, Token, TokenData};
use front_end::parser::ast::function::UnvalidatedFunctionExpression as S;
use front_end::parser::ast::operations::{BinaryOperation, UnaryOperator};
use front_end::parser::ast::structs::{UnvalidatedEnumData, UnvalidatedEnumVariant};
use front_end::parser::error::ParserError;
use front_end::parser::modules::expression_parser::ExpressionParser;
use front_end::parser::modules::statement_parser::StatementParser;
use front_end::parser::modules::top_level::TopLevelParser;
use front_end::parser::ast::structs::{
    UnvalidatedProperty, UnvalidatedStructProperty, UnvalidatedStructPrototype,
};
use front_end::parser::ast::top_level::UnvalidatedTopLevel;
use front_end::parser::ast::top_level::UnvalidatedTopLevel as UTL;
use front_end::parser::ast::UnvalidatedSymbol;
use front_end::parser::error::ParserResult;
use front_end::parser::parser::Parser;

// The expected trees below are written without their spans: every node carries the empty span
// at the start of the buffer. The parsed tree is compared with them after its spans have been
// replaced in the same way.

fn blank_expression(e: UnvalidatedExpression, t: &Trace) -> UnvalidatedExpression {
    match e {
        E::IfElse { condition, then, otherwise, .. } => E::IfElse {
            condition: Box::new(blank_expression(*condition, t)),
            then: Box::new(blank_statement(*then, t)),
            otherwise: Box::new(blank_statement(*otherwise, t)),
            trace: t.clone(),
        },
        E::Scope(body, _) => {
            E::Scope(body.into_iter().map(|s| blank_statement(s, t)).collect(), t.clone())
        }
        E::BoolLiteral(v, _) => E::BoolLiteral(v, t.clone()),
        E::F32Literal(v, _) => E::F32Literal(v, t.clone()),
        E::F64Literal(v, _) => E::F64Literal(v, t.clone()),
        E::I32Literal(v, _) => E::I32Literal(v, t.clone()),
        E::I64Literal(v, _) => E::I64Literal(v, t.clone()),
        E::StringLiteral(v, _) => E::StringLiteral(v, t.clone()),
        E::Parenthetical(inner, _) => {
            E::Parenthetical(Box::new(blank_expression(*inner, t)), t.clone())
        }
        E::Binary { lhs, op, rhs, .. } => E::Binary {
            lhs: Box::new(blank_expression(*lhs, t)),
            op,
            rhs: Box::new(blank_expression(*rhs, t)),
            trace: t.clone(),
        },
        E::Unary { expr, op, .. } => {
            E::Unary { expr: Box::new(blank_expression(*expr, t)), op, trace: t.clone() }
        }
        E::Cast { expr, ty, .. } => {
            E::Cast { expr: Box::new(blank_expression(*expr, t)), ty, trace: t.clone() }
        }
        E::FunctionCall { symbol, arguments, .. } => E::FunctionCall {
            symbol,
            arguments: arguments.into_iter().map(|a| blank_expression(a, t)).collect(),
            trace: t.clone(),
        },
        E::VariableReference { symbol, .. } => E::VariableReference { symbol, trace: t.clone() },
        E::ObjectProperty { object, identifier, .. } => E::ObjectProperty {
            object: Box::new(blank_expression(*object, t)),
            identifier,
            trace: t.clone(),
        },
    }
}

fn blank_statement(s: UnvalidatedFunctionExpression, t: &Trace) -> UnvalidatedFunctionExpression {
    match s {
        UnvalidatedFunctionExpression::If { condition, then, .. } => {
            UnvalidatedFunctionExpression::If {
                condition: blank_expression(condition, t),
                then: Box::new(blank_expression(*then, t)),
                trace: t.clone(),
            }
        }
        UnvalidatedFunctionExpression::While { condition, then, .. } => {
            UnvalidatedFunctionExpression::While {
                condition: blank_expression(condition, t),
                then: Box::new(blank_expression(*then, t)),
                trace: t.clone(),
            }
        }
        UnvalidatedFunctionExpression::Let { variable, initial, .. } => {
            UnvalidatedFunctionExpression::Let {
                variable,
                initial: initial.map(|e| blank_expression(e, t)),
                trace: t.clone(),
            }
        }
        UnvalidatedFunctionExpression::Return(value) => {
            UnvalidatedFunctionExpression::Return(value.map(|e| blank_expression(e, t)))
        }
        UnvalidatedFunctionExpression::Expression(e) => {
            UnvalidatedFunctionExpression::Expression(blank_expression(e, t))
        }
    }
}

fn blank_item(item: UnvalidatedTopLevel, t: &Trace) -> UnvalidatedTopLevel {
    match item {
        UTL::FunctionDefinition { proto, body, .. } => {
            UTL::FunctionDefinition { proto, body: blank_statement(body, t), trace: t.clone() }
        }
        UTL::StructDefinition { proto, .. } => UTL::StructDefinition { proto, trace: t.clone() },
        UTL::EnumDefinition { variants, .. } => UTL::EnumDefinition { variants, trace: t.clone() },
        UTL::GlobalVariable { variable, initial, .. } => UTL::GlobalVariable {
            variable,
            initial: blank_expression(initial, t),
            trace: t.clone(),
        },
        UTL::Import { namespace, star, .. } => UTL::Import { namespace, star, trace: t.clone() },
    }
}

fn parse_from(source: &str) -> (ParserResult<Vec<UnvalidatedTopLevel>>, Box<dyn Fn() -> Trace>) {
    let source = SourceFile::new(source).rc();
    let trace = source.trace(0..0);
    let tokens = front_end::lexer::tokenize(Rc::clone(&source));

    let blank = trace.clone();
    let trace = move || trace.clone();
    let parsed = Parser::new(source, tokens)
        .parse()
        .map(|items| items.into_iter().map(|item| blank_item(item, &blank)).collect());
    (parsed, Box::new(trace))
}

#[test]
fn function_proto() {
    let (vecs, trace) = parse_from(r"
        fun no_arg() {}
        pub fun args(_0: i32, _1: i64) {}
        fun returns(): ref[i32] {}
    ");

    assert_eq!(vecs, Ok(vec![
        UnvalidatedTopLevel::FunctionDefinition {
            proto: UnvalidatedFunctionPrototype {
                name: Identifier("no_arg".into()),
                arguments: vec![],
                returns: UnvalidatedType::Unit,
                visibility: Visibility::Private,
            },
            body: UnvalidatedExpression::Scope(vec![], trace()).into(),
            trace: trace(),
        },
        UnvalidatedTopLevel::FunctionDefinition {
            proto: UnvalidatedFunctionPrototype {
                name: Identifier("args".into()),
                arguments: vec![
                    UnvalidatedVariableInfo {
                        ident: "_0".into(),
                        ty: UnvalidatedType::Type("i32".into()),
                        mutable: false,
                    },
                    UnvalidatedVariableInfo {
                        ident: "_1".into(),
                        ty: UnvalidatedType::Type("i64".into()),
                        mutable: false,
                    },
                ],
                returns: UnvalidatedType::Unit,
                visibility: Visibility::Public,
            },
            body: UnvalidatedExpression::Scope(vec![], trace()).into(),
            trace: trace(),
        },
        UnvalidatedTopLevel::FunctionDefinition {
            proto: UnvalidatedFunctionPrototype {
                name: Identifier("returns".into()),
                arguments: vec![],
                returns: UnvalidatedType::Reference(Box::new(UnvalidatedType::Type("i32".into()))),
                visibility: Visibility::Private,
            },
            body: UnvalidatedExpression::Scope(vec![], trace()).into(),
            trace: trace(),
        },
    ]))
}

#[test]
fn function_oneline() {
    let (vecs, trace) = parse_from(r"
        fun funny() => 69
    ");

    assert_eq!(vecs, Ok(vec![
        UnvalidatedTopLevel::FunctionDefinition {
            proto: UnvalidatedFunctionPrototype {
                name: Identifier("funny".into()),
                arguments: vec![],
                returns: UnvalidatedType::Unit,
                visibility: Visibility::Private,
            },
            body: UnvalidatedExpression::I32Literal(69, trace()).into(),
            trace: trace(),
        },
    ]))
}

#[test]
fn function_operator_precedence() {
    let (vecs, trace) = parse_from(r"
        fun funny() =>
        2 = 1*2 / 4 + (2 + 5)
    ");

    assert_eq!(vecs, Ok(vec![
        UnvalidatedTopLevel::FunctionDefinition {
            proto: UnvalidatedFunctionPrototype {
                name: Identifier("funny".into()),
                arguments: vec![],
                returns: UnvalidatedType::Unit,
                visibility: Visibility::Private,
            },
            body: E::Binary {
                lhs: Box::new(E::I32Literal(2, trace())),
                op: BinaryOperation::Assign,
                rhs: Box::new(E::Binary {
                    lhs: Box::new(E::Binary {
                        lhs: Box::new(E::Binary {
                            lhs: Box::new(E::I32Literal(1, trace())),
                            op: BinaryOperation::Multiply,
                            rhs: Box::new(E::I32Literal(2, trace())),
                            trace: trace(),
                        }),
                        op: BinaryOperation::Divide,
                        rhs: Box::new(E::I32Literal(4, trace())),
                        trace: trace(),
                    }),
                    op: BinaryOperation::Plus,
                    rhs: Box::new(E::Parenthetical(
                        Box::new(E::Binary {
                            lhs: Box::new(E::I32Literal(2, trace())),
                            op: BinaryOperation::Plus,
                            rhs: Box::new(E::I32Literal(5, trace())),
                            trace: trace(),
                        }), trace())),
                    trace: trace(),
                }),
                trace: trace(),
            }.into(),
            trace: trace(),
        },
    ]))
}

#[test]
fn function_symbols() {
    let (vecs, trace) = parse_from(r##"
        fun funny() {
            printf("hello")
            std::io::printf("hello")
        }
    "##);

    if let Err(ref e) = vecs {
        println!("{:#?}", e);
    }

    assert_eq!(vecs, Ok(vec![
        UnvalidatedTopLevel::FunctionDefinition {
            proto: UnvalidatedFunctionPrototype {
                name: Identifier("funny".into()),
                arguments: vec![],
                returns: UnvalidatedType::Unit,
                visibility: Visibility::Private,
            },
            body: E::Scope(vec![
                E::FunctionCall {
                    symbol: UnvalidatedSymbol {
                        explicit_namespace: Namespace { chain: vec![] },
                        identifier: "printf".into(),
                    },
                    arguments: vec![
                        E::StringLiteral("hello".into(), trace())
                    ],
                    trace: trace(),
                }.into(),
                E::FunctionCall {
                    symbol: UnvalidatedSymbol {
                        explicit_namespace: Namespace { chain: vec!["std".into(), "io".into()] },
                        identifier: "printf".into(),
                    },
                    arguments: vec![
                        E::StringLiteral("hello".into(), trace())
                    ],
                    trace: trace(),
                }.into(),
            ], trace()).into(),
            trace: trace(),
        },
    ]))
}

#[test]
fn struct_declaration() {
    let (vecs, trace) = parse_from(r##"
    struct Vector3 {
        pub x: f32
        y: f32
        pub z: f32
    }

    pub struct Dummy {}

    pub struct Vector2 {
        pub x: f32
        pub y: f32
    }
    "##);

    if let Err(ref e) = vecs {
        println!("{:#?}", e);
    }

    assert_eq!(vecs, Ok(vec![
        UTL::StructDefinition {
            proto: UnvalidatedStructPrototype {
                identifier: "Vector3".into(),
                properties: vec![
                    UnvalidatedStructProperty {
                        property: UnvalidatedProperty {
                            name: "x".into(),
                            ty: UnvalidatedType::Type("f32".into()),
                        },
                        visibility: Visibility::Public,
                    },
                    UnvalidatedStructProperty {
                        property: UnvalidatedProperty {
                            name: "y".into(),
                            ty: UnvalidatedType::Type("f32".into()),
                        },
                        visibility: Visibility::Private,
                    },
                    UnvalidatedStructProperty {
                        property: UnvalidatedProperty {
                            name: "z".into(),
                            ty: UnvalidatedType::Type("f32".into()),
                        },
                        visibility: Visibility::Public,
                    },
                ],
                visibility: Visibility::Private,
            },
            trace: trace(),
        },
        UTL::StructDefinition {
            proto: UnvalidatedStructPrototype {
                identifier: "Dummy".into(),
                properties: vec![],
                visibility: Visibility::Public,
            },
            trace: trace(),
        },
        UTL::StructDefinition {
            proto: UnvalidatedStructPrototype {
                identifier: "Vector2".into(),
                properties: vec![
                    UnvalidatedStructProperty {
                        property: UnvalidatedProperty {
                            name: "x".into(),
                            ty: UnvalidatedType::Type("f32".into()),
                        },
                        visibility: Visibility::Public,
                    },
                    UnvalidatedStructProperty {
                        property: UnvalidatedProperty {
                            name: "y".into(),
                            ty: UnvalidatedType::Type("f32".into()),
                        },
                        visibility: Visibility::Public,
                    },
                ],
                visibility: Visibility::Public,
            },
            trace: trace(),
        },
    ]))
}

fn blank() -> Trace {
    SourceFile::new("").rc().trace(0..0)
}

fn parse_items(source: &str) -> ParserResult<Vec<UnvalidatedTopLevel>> {
    front_end::parser::parse_file(SourceFile::new(source).rc()).expect("literals fit")
}

/// The body of `fun f() => <source>`, with its spans as parsed.
fn expression_with_spans(source: &str) -> Result<UnvalidatedExpression, ParserError> {
    let text = format!("fun f() => {}", source);
    let mut items = parse_items(&text)?;
    assert_eq!(items.len(), 1);
    match items.remove(0) {
        UTL::FunctionDefinition { body: UnvalidatedFunctionExpression::Expression(e), .. } => Ok(e),
        other => panic!("not a function with an expression body: {:?}", other),
    }
}

/// The body of `fun f() => <source>`, without its spans.
fn expression(source: &str) -> UnvalidatedExpression {
    let t = blank();
    let e = expression_with_spans(source).expect("the expression parses");
    let e = blank_expression(e, &t);
    // The buffers differ in their text, so the blank spans are made alike.
    retarget(e)
}

fn retarget(e: UnvalidatedExpression) -> UnvalidatedExpression {
    blank_expression(e, &blank())
}

/// The statements of `fun f() { <source> }`, without their spans.
fn statements(source: &str) -> Vec<UnvalidatedFunctionExpression> {
    let text = format!("fun f() {{ {} }}", source);
    let mut items = parse_items(&text).expect("the body parses");
    assert_eq!(items.len(), 1);
    match items.remove(0) {
        UTL::FunctionDefinition {
            body: UnvalidatedFunctionExpression::Expression(E::Scope(body, _)),
            ..
        } => body.into_iter().map(|s| blank_statement(s, &blank())).collect(),
        other => panic!("not a function with a block body: {:?}", other),
    }
}

fn number(value: i32) -> Box<UnvalidatedExpression> {
    Box::new(E::I32Literal(value, blank()))
}

fn binary(
    lhs: Box<UnvalidatedExpression>,
    op: BinaryOperation,
    rhs: Box<UnvalidatedExpression>,
) -> Box<UnvalidatedExpression> {
    Box::new(E::Binary { lhs, op, rhs, trace: blank() })
}

fn variable(name: &str) -> Box<UnvalidatedExpression> {
    Box::new(E::VariableReference { symbol: symbol(&[], name), trace: blank() })
}

fn symbol(path: &[&str], name: &str) -> UnvalidatedSymbol {
    UnvalidatedSymbol {
        explicit_namespace: Namespace { chain: path.iter().map(|s| Identifier::from(*s)).collect() },
        identifier: name.into(),
    }
}

fn named(name: &str) -> UnvalidatedType {
    UnvalidatedType::Type(name.into())
}

#[test]
fn multiplication_binds_tighter_than_addition() {
    use_operations();
    assert_eq!(
        expression("1*2/4+(2+5)"),
        *binary(
            binary(
                binary(number(1), BinaryOperation::Multiply, number(2)),
                BinaryOperation::Divide,
                number(4)
            ),
            BinaryOperation::Plus,
            Box::new(E::Parenthetical(binary(number(2), BinaryOperation::Plus, number(5)), blank())),
        )
    );
}

#[test]
fn assignment_is_the_loosest_tier() {
    assert_eq!(
        expression("2=1*2"),
        *binary(number(2), BinaryOperation::Assign, binary(number(1), BinaryOperation::Multiply, number(2)))
    );
}

#[test]
fn operators_of_one_tier_fold_to_the_left() {
    assert_eq!(
        expression("1-2-3"),
        *binary(binary(number(1), BinaryOperation::Minus, number(2)), BinaryOperation::Minus, number(3))
    );
    assert_eq!(
        expression("1=2+=3"),
        *binary(
            binary(number(1), BinaryOperation::Assign, number(2)),
            BinaryOperation::PlusAssign,
            number(3)
        )
    );
}

fn use_operations() {
    // One operator of each tier, from the loosest to the tightest: each binds what stands to
    // its right tighter than itself.
    let tiers = [
        ("=", BinaryOperation::Assign),
        ("||", BinaryOperation::Or),
        ("&&", BinaryOperation::And),
        ("|", BinaryOperation::BitOr),
        ("^", BinaryOperation::Xor),
        ("&", BinaryOperation::BitAnd),
        ("==", BinaryOperation::Equals),
        ("<", BinaryOperation::Less),
        ("<<", BinaryOperation::BitShiftLeft),
        ("+", BinaryOperation::Plus),
        ("*", BinaryOperation::Multiply),
    ];
    for pair in tiers.windows(2) {
        let (loose, loose_op) = pair[0];
        let (tight, tight_op) = pair[1];
        assert_eq!(
            expression(&format!("1 {} 2 {} 3", loose, tight)),
            *binary(number(1), loose_op, binary(number(2), tight_op, number(3))),
            "{} against {}",
            loose,
            tight
        );
        assert_eq!(
            expression(&format!("1 {} 2 {} 3", tight, loose)),
            *binary(binary(number(1), tight_op, number(2)), loose_op, number(3)),
            "{} against {}",
            tight,
            loose
        );
    }
    let all = [
        ("*", BinaryOperation::Multiply),
        ("/", BinaryOperation::Divide),
        ("%", BinaryOperation::Mod),
        ("+", BinaryOperation::Plus),
        ("-", BinaryOperation::Minus),
        ("<<", BinaryOperation::BitShiftLeft),
        (">>", BinaryOperation::BitShiftRight),
        ("<", BinaryOperation::Less),
        (">", BinaryOperation::Greater),
        ("<=", BinaryOperation::LesserOrEquals),
        (">=", BinaryOperation::GreaterOrEquals),
        ("==", BinaryOperation::Equals),
        ("!=", BinaryOperation::NotEqual),
        ("&", BinaryOperation::BitAnd),
        ("^", BinaryOperation::Xor),
        ("|", BinaryOperation::BitOr),
        ("&&", BinaryOperation::And),
        ("||", BinaryOperation::Or),
        ("%=", BinaryOperation::ModAssigns),
        ("^=", BinaryOperation::XorAssign),
        ("&=", BinaryOperation::BitAndAssign),
        ("*=", BinaryOperation::MultiplyAssign),
        ("-=", BinaryOperation::MinusAssign),
        ("+=", BinaryOperation::PlusAssign),
        ("/=", BinaryOperation::DivideAssign),
        ("<<=", BinaryOperation::BitShiftLeftAssign),
        (">>=", BinaryOperation::BitShiftRightAssign),
        ("&&=", BinaryOperation::AndAssign),
        ("||=", BinaryOperation::OrAssign),
        ("=", BinaryOperation::Assign),
    ];
    for (text, op) in all {
        assert_eq!(expression(&format!("1 {} 2", text)), *binary(number(1), op, number(2)), "{}", text);
    }
}

#[test]
fn operations_come_from_operators() {
    assert_eq!(BinaryOperation::try_from(Operator::Plus), Ok(BinaryOperation::Plus));
    assert_eq!(BinaryOperation::try_from(Operator::Colon), Ok(BinaryOperation::Colon));
    assert_eq!(BinaryOperation::try_from(Operator::LessEquals), Ok(BinaryOperation::LesserOrEquals));
    assert_eq!(BinaryOperation::try_from(Operator::Not), Err(()));
    assert_eq!(BinaryOperation::try_from(Operator::ParenOpen), Err(()));
    assert_eq!(BinaryOperation::try_from(Operator::Comma), Err(()));
    assert_eq!(UnaryOperator::try_from(Operator::Minus), Ok(UnaryOperator::Negate));
    assert_eq!(UnaryOperator::try_from(Operator::Not), Ok(UnaryOperator::Not));
    assert_eq!(UnaryOperator::try_from(Operator::BitNot), Ok(UnaryOperator::BitNot));
    assert_eq!(UnaryOperator::try_from(Operator::Plus), Err(()));
}

#[test]
fn a_prefix_operator_takes_a_whole_expression() {
    assert_eq!(
        expression("-1+2"),
        E::Unary {
            expr: binary(number(1), BinaryOperation::Plus, number(2)),
            op: UnaryOperator::Negate,
            trace: blank(),
        }
    );
    assert_eq!(
        expression("3 * !~x"),
        *binary(
            number(3),
            BinaryOperation::Multiply,
            Box::new(E::Unary {
                expr: Box::new(E::Unary {
                    expr: variable("x"),
                    op: UnaryOperator::BitNot,
                    trace: blank()
                }),
                op: UnaryOperator::Not,
                trace: blank(),
            })
        )
    );
}

#[test]
fn casts_wrap_from_left_to_right() {
    assert_eq!(
        expression("x as i32 as ref[i64] + 1"),
        *binary(
            Box::new(E::Cast {
                expr: Box::new(E::Cast { expr: variable("x"), ty: named("i32"), trace: blank() }),
                ty: UnvalidatedType::Reference(Box::new(named("i64"))),
                trace: blank(),
            }),
            BinaryOperation::Plus,
            number(1)
        )
    );
}

#[test]
fn literals_of_every_kind() {
    assert_eq!(expression("true"), E::BoolLiteral(true, blank()));
    assert_eq!(expression("false"), E::BoolLiteral(false, blank()));
    assert_eq!(expression("\"s\""), E::StringLiteral("s".into(), blank()));
    assert_eq!(expression("7L"), E::I64Literal(7, blank()));
    assert_eq!(expression("7"), E::I32Literal(7, blank()));
    assert_eq!(expression("7.5"), E::F32Literal("7.5".into(), blank()));
    assert_eq!(expression("7.5d"), E::F64Literal("7.5".into(), blank()));
}

#[test]
fn calls_take_arguments_between_commas() {
    let call = |arguments: Vec<UnvalidatedExpression>| E::FunctionCall {
        symbol: symbol(&["a"], "f"),
        arguments,
        trace: blank(),
    };
    assert_eq!(expression("a::f()"), call(vec![]));
    assert_eq!(expression("a::f(1)"), call(vec![*number(1)]));
    assert_eq!(expression("a::f(1, x)"), call(vec![*number(1), *variable("x")]));
    assert_eq!(expression("a::f(1, x,)"), call(vec![*number(1), *variable("x")]));
    assert_eq!(
        expression("a::f(g(2) + 1)"),
        call(vec![*binary(
            Box::new(E::FunctionCall {
                symbol: symbol(&[], "g"),
                arguments: vec![*number(2)],
                trace: blank()
            }),
            BinaryOperation::Plus,
            number(1)
        )])
    );
    assert_eq!(
        expression("a::b::c"),
        E::VariableReference { symbol: symbol(&["a", "b"], "c"), trace: blank() }
    );
}

#[test]
fn types_nest() {
    let returns = |source: &str| {
        let text = format!("fun f(): {} {{}}", source);
        match parse_items(&text).map(|mut items| items.remove(0)) {
            Ok(UTL::FunctionDefinition { proto, .. }) => Ok(proto.returns),
            Ok(other) => panic!("not a function: {:?}", other),
            Err(e) => Err(e),
        }
    };
    assert_eq!(returns("i32"), Ok(named("i32")));
    assert_eq!(
        returns("ref[[T]]"),
        Ok(UnvalidatedType::Reference(Box::new(UnvalidatedType::Array(Box::new(named("T"))))))
    );
    let template = |arguments: Vec<UnvalidatedType>| UnvalidatedType::Template {
        base: "Map".into(),
        template_arguments: arguments,
    };
    assert_eq!(returns("Map<>"), Ok(template(vec![])));
    assert_eq!(returns("Map<K>"), Ok(template(vec![named("K")])));
    assert_eq!(returns("Map<K, [V]>"), Ok(template(vec![
        named("K"),
        UnvalidatedType::Array(Box::new(named("V"))),
    ])));
    assert_eq!(returns("Map<K, V,>"), Ok(template(vec![named("K"), named("V")])));
    assert!(matches!(returns("Map<K V>"), Err(ParserError::ExpectedOperator(Operator::Greater, _))));
    assert!(matches!(returns("ref i32"), Err(ParserError::ExpectedOperator(Operator::BracketOpen, _))));
    assert!(matches!(returns("[i32"), Err(ParserError::ExpectedOperator(Operator::BracketClose, _))));
    assert!(matches!(returns("5"), Err(ParserError::UnexpectedToken(_))));
}

#[test]
fn statements_of_every_kind() {
    let scope = |body: Vec<S>| Box::new(E::Scope(body, blank()));
    let not = |e: Box<UnvalidatedExpression>| E::Unary { expr: e, op: UnaryOperator::Not, trace: blank() };
    let declaration = |name: &str, ty: UnvalidatedType, mutable: bool, initial| S::Let {
        variable: UnvalidatedVariableInfo { ident: name.into(), ty, mutable },
        initial,
        trace: blank(),
    };
    assert_eq!(statements(""), vec![]);
    assert_eq!(
        statements("let a let mut b: i32 let c = 1 let mut d: [T] = x"),
        vec![
            declaration("a", UnvalidatedType::Implicit, false, None),
            declaration("b", named("i32"), true, None),
            declaration("c", UnvalidatedType::Implicit, false, Some(*number(1))),
            declaration("d", UnvalidatedType::Array(Box::new(named("T"))), true, Some(*variable("x"))),
        ]
    );
    assert_eq!(
        statements("while x { y } until x { }"),
        vec![
            S::While { condition: *variable("x"), then: scope(vec![S::Expression(*variable("y"))]), trace: blank() },
            S::While { condition: not(variable("x")), then: scope(vec![]), trace: blank() },
        ]
    );
    assert_eq!(
        statements("if x { if y { 1 } } unless x < 2 { }"),
        vec![
            S::If {
                condition: *variable("x"),
                then: scope(vec![S::If {
                    condition: *variable("y"),
                    then: scope(vec![S::Expression(*number(1))]),
                    trace: blank()
                }]),
                trace: blank()
            },
            S::If {
                condition: not(binary(variable("x"), BinaryOperation::Less, number(2))),
                then: scope(vec![]),
                trace: blank()
            },
        ]
    );
    assert_eq!(
        statements("return unit return 1 + 2 x"),
        vec![
            S::Return(None),
            S::Return(Some(*binary(number(1), BinaryOperation::Plus, number(2)))),
            S::Expression(*variable("x")),
        ]
    );
}

#[test]
fn items_of_every_kind() {
    let items: Vec<UnvalidatedTopLevel> = parse_items(
        "import std::io
         pub fun f(mut a: i32, b: [i64],): T => a
         enum { A B(i32, [i64]) C { x: i32, y: T } D() E {} }
         pub enum { }
         pub struct S { }",
    )
    .expect("the items parse")
    .into_iter()
    .map(|item| blank_item(item, &blank()))
    .collect();
    let variant = |name: &str, data| UnvalidatedEnumVariant { name: name.into(), data };
    assert_eq!(
        items,
        vec![
            UTL::Import { namespace: symbol(&["std"], "io"), star: false, trace: blank() },
            UTL::FunctionDefinition {
                proto: UnvalidatedFunctionPrototype {
                    name: "f".into(),
                    arguments: vec![
                        UnvalidatedVariableInfo { ident: "a".into(), ty: named("i32"), mutable: true },
                        UnvalidatedVariableInfo {
                            ident: "b".into(),
                            ty: UnvalidatedType::Array(Box::new(named("i64"))),
                            mutable: false
                        },
                    ],
                    returns: named("T"),
                    visibility: Visibility::Public,
                },
                body: UnvalidatedFunctionExpression::Expression(*variable("a")),
                trace: blank(),
            },
            UTL::EnumDefinition {
                variants: vec![
                    variant("A", None),
                    variant(
                        "B",
                        Some(UnvalidatedEnumData::Positional(vec![
                            named("i32"),
                            UnvalidatedType::Array(Box::new(named("i64"))),
                        ]))
                    ),
                    variant(
                        "C",
                        Some(UnvalidatedEnumData::StructLike(vec![
                            UnvalidatedProperty { name: "x".into(), ty: named("i32") },
                            UnvalidatedProperty { name: "y".into(), ty: named("T") },
                        ]))
                    ),
                    variant("D", Some(UnvalidatedEnumData::Positional(vec![]))),
                    variant("E", Some(UnvalidatedEnumData::StructLike(vec![]))),
                ],
                trace: blank(),
            },
            UTL::EnumDefinition { variants: vec![], trace: blank() },
            UTL::StructDefinition {
                proto: UnvalidatedStructPrototype {
                    identifier: "S".into(),
                    properties: vec![],
                    visibility: Visibility::Public
                },
                trace: blank(),
            },
        ]
    );
    assert_eq!(parse_items(""), Ok(vec![]));
    assert_eq!(parse_items("  // nothing\n"), Ok(vec![]));
}

#[test]
fn the_members_of_a_variant_stand_between_commas() {
    let variants = |source: &str| match parse_items(source).map(|mut items| items.remove(0)) {
        Ok(UTL::EnumDefinition { variants, .. }) => Ok(variants),
        Ok(other) => panic!("not an enum: {:?}", other),
        Err(e) => Err(e),
    };
    let member = |name: &str, ty: &str| UnvalidatedProperty { name: name.into(), ty: named(ty) };
    let variant = |name: &str, data| UnvalidatedEnumVariant { name: name.into(), data };
    assert_eq!(
        variants("enum { A B(i32, i64) C { x: i32, y: i64 } }"),
        Ok(vec![
            variant("A", None),
            variant("B", Some(UnvalidatedEnumData::Positional(vec![named("i32"), named("i64")]))),
            variant(
                "C",
                Some(UnvalidatedEnumData::StructLike(vec![member("x", "i32"), member("y", "i64")]))
            ),
        ])
    );
    assert_eq!(
        variants("enum { C { x: i32, } D { y: T } }"),
        Ok(vec![
            variant("C", Some(UnvalidatedEnumData::StructLike(vec![member("x", "i32")]))),
            variant("D", Some(UnvalidatedEnumData::StructLike(vec![member("y", "T")]))),
        ])
    );
    let source = "enum { C { x: i32 y: i64 } }";
    match variants(source) {
        Err(ParserError::ExpectedOperator(Operator::CurlyClose, trace)) => {
            assert_eq!(&source[trace.range], "y")
        }
        other => panic!("{:?}", other),
    }
    assert!(matches!(variants("enum { C { , } }"), Err(ParserError::ExpectedIdentifier(_))));
}

#[test]
fn nodes_span_their_whole_extent() {
    let source = "fun f() => (1 + 2) * g(x) as i32";
    let offset = "fun f() => ".len();
    let text = |trace: Trace| source[trace.range].to_string();
    let e = expression_with_spans(&source[offset..]).unwrap();
    assert_eq!(text(e.trace()), "(1 + 2) * g(x) as i32");
    match e {
        E::Binary { lhs, rhs, .. } => {
            assert_eq!(text(lhs.trace()), "(1 + 2)");
            match *lhs {
                E::Parenthetical(inner, _) => {
                    assert_eq!(text(inner.trace()), "1 + 2");
                    match *inner {
                        E::Binary { lhs, rhs, .. } => {
                            assert_eq!(text(lhs.trace()), "1");
                            assert_eq!(text(rhs.trace()), "2");
                        }
                        other => panic!("{:?}", other),
                    }
                }
                other => panic!("{:?}", other),
            }
            assert_eq!(text(rhs.trace()), "g(x) as i32");
            match *rhs {
                E::Cast { expr, .. } => {
                    assert_eq!(text(expr.trace()), "g(x)");
                    match *expr {
                        E::FunctionCall { arguments, .. } => {
                            assert_eq!(text(arguments[0].trace()), "x")
                        }
                        other => panic!("{:?}", other),
                    }
                }
                other => panic!("{:?}", other),
            }
        }
        other => panic!("{:?}", other),
    }
    let source = "  pub fun f() {\n  until -a { let b = 1 }\n}  fun g() => 1";
    let items = parse_items(source).unwrap();
    match &items[0] {
        UTL::FunctionDefinition { body: UnvalidatedFunctionExpression::Expression(body), trace, .. } => {
            assert_eq!(&source[trace.range.clone()], "pub fun f() {\n  until -a { let b = 1 }\n}");
            assert_eq!(&source[body.trace().range], "{\n  until -a { let b = 1 }\n}");
            match body {
                E::Scope(statements, _) => match &statements[0] {
                    UnvalidatedFunctionExpression::While { condition, then, trace } => {
                        assert_eq!(&source[trace.range.clone()], "until -a { let b = 1 }");
                        assert_eq!(&source[condition.trace().range], "-a");
                        assert_eq!(&source[then.trace().range], "{ let b = 1 }");
                        match &**then {
                            E::Scope(inner, _) => match &inner[0] {
                                UnvalidatedFunctionExpression::Let { trace, .. } => {
                                    assert_eq!(&source[trace.range.clone()], "let b = 1")
                                }
                                other => panic!("{:?}", other),
                            },
                            other => panic!("{:?}", other),
                        }
                    }
                    other => panic!("{:?}", other),
                },
                other => panic!("{:?}", other),
            }
        }
        other => panic!("{:?}", other),
    }
    match &items[1] {
        UTL::FunctionDefinition { trace, .. } => {
            assert_eq!(&source[trace.range.clone()], "fun g() => 1")
        }
        other => panic!("{:?}", other),
    }
}

#[test]
fn the_first_failure_ends_the_parse() {
    let failure = |source: &str| parse_items(source).expect_err("the text is no program");
    let at = |source: &str, e: &ParserError| source[e.trace().range.clone()].to_string();

    let source = "fun f() {} 5 fun g( {}";
    match failure(source) {
        ParserError::UnexpectedToken(Token(TokenData::I32Literal(5), trace)) => {
            assert_eq!(trace.range, 11..12)
        }
        other => panic!("{:?}", other),
    }
    let source = "fun () {}";
    let e = failure(source);
    assert!(matches!(e, ParserError::ExpectedIdentifier(_)));
    assert_eq!(at(source, &e), "(");

    let source = "fun f {}";
    let e = failure(source);
    assert!(matches!(e, ParserError::ExpectedOperator(Operator::ParenOpen, _)));
    assert_eq!(at(source, &e), "{");

    let source = "fun f(a i32) {}";
    let e = failure(source);
    assert!(matches!(e, ParserError::ExpectedOperator(Operator::Colon, _)));
    assert_eq!(at(source, &e), "i32");

    let source = "fun f(a: i32 b: i32) {}";
    let e = failure(source);
    assert!(matches!(e, ParserError::ExpectedOperator(Operator::ParenClose, _)));
    assert_eq!(at(source, &e), "b");

    let source = "pub fun f() 5";
    let e = failure(source);
    assert!(matches!(e, ParserError::ExpectedFunctionBody(_)));
    assert_eq!(at(source, &e), "pub fun f() 5");

    let source = "fun f() => (1 + 2";
    let e = failure(source);
    assert!(matches!(e, ParserError::ExpectedOperator(Operator::ParenClose, _)));
    assert_eq!(e.trace().range, source.len()..source.len());

    let source = "fun f() => g(1 2)";
    let e = failure(source);
    assert!(matches!(e, ParserError::ExpectedOperator(Operator::ParenClose, _)));
    assert_eq!(at(source, &e), "2");

    let source = "fun f() => 1 +";
    assert!(matches!(failure(source), ParserError::UnexpectedToken(Token(TokenData::EOF, _))));

    let source = "fun f() => a::5";
    let e = failure(source);
    assert!(matches!(e, ParserError::ExpectedIdentifier(_)));
    assert_eq!(at(source, &e), "5");

    let source = "fun f() { while x y }";
    let e = failure(source);
    assert!(matches!(e, ParserError::ExpectedOperator(Operator::CurlyOpen, _)));
    assert_eq!(at(source, &e), "while x y");
    let source = "fun f() { unless x }";
    let e = failure(source);
    assert!(matches!(e, ParserError::ExpectedOperator(Operator::CurlyOpen, _)));
    assert_eq!(at(source, &e), "unless x }");

    let source = "fun f() { let 5 }";
    assert!(matches!(failure(source), ParserError::ExpectedIdentifier(_)));
    let source = "fun f() { return }";
    assert!(matches!(
        failure(source),
        ParserError::UnexpectedToken(Token(TokenData::Operator(Operator::CurlyClose), _))
    ));
    let source = "fun f() { x";
    let e = failure(source);
    assert!(matches!(e, ParserError::ExpectedOperator(Operator::CurlyClose, _)));

    let source = "struct { }";
    assert!(matches!(failure(source), ParserError::ExpectedIdentifier(_)));
    let source = "struct S x";
    assert!(matches!(failure(source), ParserError::ExpectedOperator(Operator::CurlyOpen, _)));
    let source = "struct S { x: i32, y: i32 }";
    let e = failure(source);
    assert!(matches!(e, ParserError::ExpectedIdentifier(_)));
    assert_eq!(at(source, &e), ",");
    let source = "enum { A(i32 }";
    assert!(matches!(failure(source), ParserError::ExpectedOperator(Operator::ParenClose, _)));
    let source = "enum { A { x } }";
    assert!(matches!(failure(source), ParserError::ExpectedOperator(Operator::Colon, _)));
    let source = "enum A { }";
    assert!(matches!(failure(source), ParserError::ExpectedOperator(Operator::CurlyOpen, _)));
    let source = "import 5";
    assert!(matches!(failure(source), ParserError::ExpectedIdentifier(_)));
    let source = "pub 5";
    let e = failure(source);
    assert!(matches!(e, ParserError::UnexpectedToken(Token(TokenData::Keyword(Keyword::Public), _))));
    assert_eq!(at(source, &e), "pub");
    let source = "let x = 1";
    assert!(matches!(
        failure(source),
        ParserError::UnexpectedToken(Token(TokenData::Keyword(Keyword::Let), _))
    ));
}

#[test]
fn a_literal_that_does_not_fit_stops_before_parsing() {
    assert!(front_end::parser::parse_file(SourceFile::new("fun f() => 4000000000").rc()).is_none());
    assert!(front_end::parser::parse_file(SourceFile::new("fun f() => 4000000000L").rc()).is_some());
}

#[test]
fn parsing_twice_gives_the_same_tree() {
    let source = "pub fun f(a: i32): i32 { let b = a * 2 return b as i64 } struct S { pub x: [T] }";
    let first = parse_items(source);
    let second = parse_items(source);
    assert!(first.is_ok());
    assert_eq!(first, second);
    let broken = "fun f() => (1 +";
    assert_eq!(parse_items(broken), parse_items(broken));
    assert!(parse_items(broken).is_err());
}

fn cursor(source: &str) -> Parser {
    let file = SourceFile::new(source).rc();
    let tokens = front_end::lexer::tokenize(Rc::clone(&file));
    Parser::new(file, tokens)
}

#[test]
fn the_cursor_reads_and_moves() {
    let mut p = cursor("a + b");
    assert_eq!(p.position(), 0);
    assert!(p.has_identifier());
    assert!(p.has_name("a"));
    assert!(!p.has_name("b"));
    assert!(!p.is_eof());
    assert_eq!(p.curr().0, TokenData::Identifier("a".into()));
    assert_eq!(p.advance().0, TokenData::Operator(Operator::Plus));
    assert!(p.has_operator(Operator::Plus));
    assert!(!p.has_operator(Operator::Minus));
    assert!(!p.has_keyword(Keyword::Let));
    assert!(!p.has_identifier());
    assert_eq!(p.trace_from(0).range, 0..3);
    assert_eq!(p.trace_over(0).range, 0..1);
    assert_eq!(p.trace(2..9).range, 2..9);
    p.rollback();
    assert_eq!(p.position(), 0);
    assert_eq!(p.curr().0, TokenData::Identifier("a".into()));
    p.advance();
    p.advance();
    assert_eq!(p.trace_from(0).range, 0..5);
    assert_eq!(p.trace_from(2).range, 4..5);
    assert_eq!(p.trace_over(0).range, 0..3);
    assert_eq!(p.advance().0, TokenData::EOF);
    assert!(p.is_eof());
    assert_eq!(p.position(), 3);
    assert_eq!(p.advance().0, TokenData::EOF);
    assert_eq!(p.advance().0, TokenData::EOF);
    assert_eq!(p.position(), 4);
    assert_eq!(p.trace_from(100).range, 5..5);
    assert_eq!(p.trace_from(1).range, 2..5);
    p.rollback();
    assert_eq!(p.curr().0, TokenData::EOF);
}

#[test]
fn the_cursor_takes_what_is_expected() {
    let mut p = cursor("let x :: y + 1");
    assert_eq!(p.expect_operator(Operator::Plus), Err(ParserError::ExpectedOperator(Operator::Plus, p.curr().1.clone())));
    assert_eq!(p.expect_keyword(Keyword::Mut), Err(ParserError::ExpectedKeyword(Keyword::Mut, p.curr().1.clone())));
    assert_eq!(p.consume_identifier(), Err(ParserError::ExpectedIdentifier(p.curr().1.clone())));
    assert_eq!(p.consume_tok(TokenData::EOF), Err(ParserError::UnexpectedToken(p.curr().clone())));
    assert_eq!(p.position(), 0);
    assert_eq!(p.expect_keyword(Keyword::Let), Ok(()));
    assert_eq!(p.position(), 1);
    assert_eq!(p.consume_symbol(), Ok(symbol(&["x"], "y")));
    assert_eq!(p.position(), 4);
    assert_eq!(p.expect_operator(Operator::Plus), Ok(()));
    assert_eq!(p.consume_tok(TokenData::I32Literal(2)), Err(ParserError::UnexpectedToken(p.curr().clone())));
    assert_eq!(p.consume_tok(TokenData::I32Literal(1)), Ok(()));
    assert!(p.is_eof());
    assert_eq!(p.consume_tok(TokenData::EOF), Ok(()));

    let mut p = cursor("+ a b");
    assert_eq!(p.consume_operator(), Ok(Operator::Plus));
    assert_eq!(p.position(), 2);
    let b = p.curr().1.clone();
    assert_eq!(p.consume_operator(), Err(ParserError::ExpectedAnyOperator(b)));
    assert_eq!(p.position(), 3);

    let mut p = cursor("ref[Map<a, b>] x");
    assert_eq!(
        p.consume_type(),
        Ok(UnvalidatedType::Reference(Box::new(UnvalidatedType::Template {
            base: "Map".into(),
            template_arguments: vec![named("a"), named("b")],
        })))
    );
    assert!(p.has_name("x"));
}

#[test]
fn the_rules_can_be_used_one_by_one() {
    let mut p = cursor("{ return unit } 1 + 2 let a while b {} if c {} return 3 fun");
    let block = ExpressionParser::parse_block(&mut p).unwrap().unwrap();
    assert_eq!(block.trace().range, 0..15);
    assert_eq!(ExpressionParser::parse_block(&mut p), Ok(None));
    let sum = ExpressionParser::consume_expression(&mut p).unwrap();
    assert_eq!(sum.trace().range, 16..21);
    assert_eq!(StatementParser::parse_while(&mut p), Ok(None));
    assert_eq!(StatementParser::parse_if(&mut p), Ok(None));
    assert_eq!(StatementParser::parse_return_statement(&mut p), Ok(None));
    assert!(matches!(
        StatementParser::parse_let_statement(&mut p),
        Ok(Some(UnvalidatedFunctionExpression::Let { .. }))
    ));
    assert_eq!(StatementParser::parse_let_statement(&mut p), Ok(None));
    assert!(matches!(
        StatementParser::parse_while(&mut p),
        Ok(Some(UnvalidatedFunctionExpression::While { .. }))
    ));
    assert!(matches!(
        StatementParser::consume_function_expression(&mut p),
        Ok(UnvalidatedFunctionExpression::If { .. })
    ));
    assert!(matches!(
        StatementParser::parse_return_statement(&mut p),
        Ok(Some(UnvalidatedFunctionExpression::Return(Some(_))))
    ));
    assert!(matches!(
        TopLevelParser::parse_top_level(&mut p),
        Err(ParserError::ExpectedIdentifier(_))
    ));
    let mut p = cursor("5");
    assert_eq!(TopLevelParser::parse_top_level(&mut p), Ok(None));
    assert_eq!(p.position(), 0);
}

/// Checks that the spans of `e` nest and lie within `limit`, and returns the span of `e`.
fn check_nesting(e: &UnvalidatedExpression, limit: usize) -> std::ops::Range<usize> {
    let own = e.trace().range;
    assert!(own.start <= own.end && own.end <= limit, "{:?}", e);
    let inside = |child: &UnvalidatedExpression| {
        let span = check_nesting(child, limit);
        assert!(own.start <= span.start && span.end <= own.end, "{:?} in {:?}", child, e);
        span
    };
    match e {
        E::Binary { lhs, rhs, .. } => {
            let (l, r) = (inside(lhs), inside(rhs));
            assert_eq!(own, l.start.min(r.start)..l.end.max(r.end));
        }
        E::Unary { expr, .. } | E::Cast { expr, .. } | E::Parenthetical(expr, _) => {
            inside(expr);
        }
        E::FunctionCall { arguments, .. } => {
            for argument in arguments {
                inside(argument);
            }
        }
        _ => {}
    }
    own
}

#[test]
fn the_spans_of_expressions_nest() {
    for source in [
        "1",
        "a = b + c * d - e / f",
        "-(1 + 2) * !x as i32 as ref[T] >= g(h(1, 2), a::b, \"s\" + 1.5f)",
        "x <<= y >> 2 && z || w ^ 1 | 2 & 3 == 4",
        "f ( ( ( 1 ) ) , ~ - 2 )",
    ] {
        let e = expression_with_spans(source).unwrap();
        let offset = "fun f() => ".len();
        let span = check_nesting(&e, offset + source.len());
        assert_eq!(span, offset..offset + source.len());
    }
}
