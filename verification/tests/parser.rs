use atoy::ast::{BinOp, CmpOp, Expr, Stmt, UnaryOp};
use atoy::lexer::Lexer;
use atoy::parser::{needs_more_input, ParseError, Parser};

fn parse(src: &str) -> Result<Vec<Stmt>, ParseError> {
    let mut lexer = Lexer::new(src.to_owned());
    let tokens = lexer.tokenize().unwrap();
    let mut parser = Parser::new(tokens);
    parser.parse()
}

fn num(n: i64) -> Box<Expr> {
    Box::new(Expr::Integer(n))
}

#[test]
fn parser_test() {
    let stmts = parse("1 + 2;").unwrap();
    assert_eq!(
        stmts,
        vec![Stmt::Expr(Expr::BinaryOp { left: num(1), op: BinOp::Add, right: num(2) })]
    );
}

#[test]
fn parser_parser_test() {
    let stmts = parse("1 + 2;").unwrap();
    assert_eq!(stmts.len(), 1);
}

#[test]
fn precedence_of_operators() {
    let stmts = parse("1 + 2 * 3 == 7 and not false;").unwrap();
    let mul = Expr::BinaryOp { left: num(2), op: BinOp::Mul, right: num(3) };
    let add = Expr::BinaryOp { left: num(1), op: BinOp::Add, right: Box::new(mul) };
    let cmp = Expr::CompareOp { left: Box::new(add), op: CmpOp::Eq, right: num(7) };
    let not = Expr::Unary(UnaryOp::Not, Box::new(Expr::Bool(false)));
    assert_eq!(stmts, vec![Stmt::Expr(Expr::AndOp { left: Box::new(cmp), right: Box::new(not) })]);
}

#[test]
fn unary_plus_is_dropped() {
    let stmts = parse("+-1;").unwrap();
    assert_eq!(stmts, vec![Stmt::Expr(Expr::Unary(UnaryOp::Neg, num(1)))]);
}

#[test]
fn let_assign_and_compound_assign() {
    let stmts = parse("let a = 1; a = 2; a += 3;").unwrap();
    assert_eq!(
        stmts,
        vec![
            Stmt::Let { name: "a".to_owned(), value: Expr::Integer(1) },
            Stmt::Assign { name: "a".to_owned(), value: Expr::Integer(2) },
            Stmt::CompoundAssign { name: "a".to_owned(), op: BinOp::Add, value: Expr::Integer(3) },
        ]
    );
}

#[test]
fn function_literal_and_call() {
    let stmts = parse("let f = fn(x) { return x; }; f(1, 2);").unwrap();
    let body = Stmt::Block(vec![Stmt::Return(Expr::Ident("x".to_owned()))]);
    assert_eq!(
        stmts,
        vec![
            Stmt::Let { name: "f".to_owned(), value: Expr::Fn(vec!["x".to_owned()], Box::new(body)) },
            Stmt::Expr(Expr::Call(Box::new(Expr::Ident("f".to_owned())), vec![Expr::Integer(1), Expr::Integer(2)])),
        ]
    );
}

#[test]
fn missing_semicolon_is_an_error() {
    assert_eq!(parse("1 + 2"), Err(ParseError::ExpectedToken(";".to_owned(), "EOF".to_owned())));
}

#[test]
fn parse_atom_alone() {
    let mut lexer = Lexer::new("42".to_owned());
    let mut parser = Parser::new(lexer.tokenize().unwrap());
    assert_eq!(parser.parse_atom(), Ok(Expr::Integer(42)));
}

#[test]
fn parse_call_and_unary() {
    let mut lexer = Lexer::new("-f()".to_owned());
    let mut parser = Parser::new(lexer.tokenize().unwrap());
    let callee = Box::new(Expr::Ident("f".to_owned()));
    assert_eq!(parser.parse_unary(), Ok(Expr::Unary(UnaryOp::Neg, Box::new(Expr::Call(callee, vec![])))));
}

#[test]
fn incomplete_input_asks_for_more() {
    assert!(needs_more_input(&ParseError::UnexpectedEof));
    assert!(needs_more_input(&ParseError::ExpectedToken(";".to_owned(), "EOF".to_owned())));
    assert!(!needs_more_input(&ParseError::ExpectedToken(";".to_owned(), "1".to_owned())));
    assert!(!needs_more_input(&ParseError::UnexpectedToken("}".to_owned())));
    let err = parse("let a = fn() {").unwrap_err();
    assert!(needs_more_input(&err));
}

fn name(s: &str) -> Box<Expr> {
    Box::new(Expr::Ident(s.to_owned()))
}

fn text(s: &str) -> Box<Expr> {
    Box::new(Expr::String(s.to_owned()))
}

#[test]
fn field_index_and_method_chains() {
    let stmts = parse("a.b[1]:m(2, 3)(4);").unwrap();
    let field = Expr::Index { obj: name("a"), key: text("b") };
    let indexed = Expr::Index { obj: Box::new(field), key: num(1) };
    let method = Expr::Method {
        obj: Box::new(indexed),
        name: "m".to_owned(),
        args: vec![Expr::Integer(2), Expr::Integer(3)],
    };
    assert_eq!(stmts, vec![Stmt::Expr(Expr::Call(Box::new(method), vec![Expr::Integer(4)]))]);
}

#[test]
fn array_table_and_concat_literals() {
    let stmts = parse("let x = [1, 2] .. {} .. \"s\" or 1;").unwrap();
    let array = Expr::Array(vec![Expr::Integer(1), Expr::Integer(2)]);
    let first = Expr::Concat { left: Box::new(array), right: Box::new(Expr::Table) };
    let or = Expr::OrOp { left: text("s"), right: num(1) };
    let value = Expr::Concat { left: Box::new(first), right: Box::new(or) };
    assert_eq!(stmts, vec![Stmt::Let { name: "x".to_owned(), value }]);
    assert_eq!(parse("[];").unwrap(), vec![Stmt::Expr(Expr::Array(vec![]))]);
}

#[test]
fn index_assignments() {
    let stmts = parse("a.b = 1; a[2] += 3; a.c;").unwrap();
    assert_eq!(
        stmts,
        vec![
            Stmt::IndexAssign { obj: Expr::Ident("a".to_owned()), key: Expr::String("b".to_owned()), value: Expr::Integer(1) },
            Stmt::IndexCompoundAssign {
                obj: Expr::Ident("a".to_owned()),
                key: Expr::Integer(2),
                op: BinOp::Add,
                value: Expr::Integer(3),
            },
            Stmt::Expr(Expr::Index { obj: name("a"), key: text("c") }),
        ]
    );
}

#[test]
fn errors_in_member_syntax() {
    assert_eq!(parse("a.1;"), Err(ParseError::ExpectedIdentifier("1".to_owned())));
    assert_eq!(parse("a:m;"), Err(ParseError::ExpectedToken("(".to_owned(), ";".to_owned())));
    assert_eq!(parse("[1 2];"), Err(ParseError::UnexpectedToken("2".to_owned())));
    assert_eq!(parse("a[1;"), Err(ParseError::ExpectedToken("]".to_owned(), ";".to_owned())));
    assert_eq!(parse("{;"), Err(ParseError::UnexpectedToken(";".to_owned())));
    assert_eq!(parse("x = {1};"), Err(ParseError::ExpectedToken("}".to_owned(), "1".to_owned())));
    assert!(needs_more_input(&parse("let a = [1,").unwrap_err()));
}

#[test]
fn an_unfinished_let_waits_for_more_input() {
    let e = parse("let").unwrap_err();
    assert_eq!(e, ParseError::ExpectedIdentifier("EOF".to_owned()));
    assert!(needs_more_input(&e));
    assert!(needs_more_input(&parse("let a = 1").unwrap_err()));
    assert!(needs_more_input(&parse("{ 1;").unwrap_err()));
    assert!(!needs_more_input(&parse("let 1").unwrap_err()));
}
