use atoy::compiler::Compiler;
use atoy::lexer::Lexer;
use atoy::parser::Parser;
use atoy::value::{OpCode, Value};

fn compile(src: &str) -> Vec<OpCode> {
    let mut lexer = Lexer::new(src.to_owned());
    let tokens = lexer.tokenize().unwrap();
    let mut parser = Parser::new(tokens);
    let stmts = parser.parse().unwrap();
    Compiler::compile_program(&stmts)
}

#[test]
fn compiler_test() {
    let code = compile("if (11 == 22) { }");
    assert_eq!(
        code,
        vec![
            OpCode::Push(Value::Integer(11)),
            OpCode::Push(Value::Integer(22)),
            OpCode::Eq,
            OpCode::JmpIfNot(6),
            OpCode::EnterScope,
            OpCode::ExitScope,
        ]
    );
}

#[test]
fn parser_compiler_test() {
    let code = compile("let a = 1; if a == 2 { 1; } else { 2; }");
    assert_eq!(
        code,
        vec![
            OpCode::Push(Value::Integer(1)),
            OpCode::StoreGlobal("a".to_owned()),
            OpCode::LoadGlobal("a".to_owned()),
            OpCode::Push(Value::Integer(2)),
            OpCode::Eq,
            OpCode::JmpIfNot(10),
            OpCode::EnterScope,
            OpCode::Push(Value::Integer(1)),
            OpCode::ExitScope,
            OpCode::Jmp(13),
            OpCode::EnterScope,
            OpCode::Push(Value::Integer(2)),
            OpCode::ExitScope,
        ]
    );
}

#[test]
fn while_loop_jumps() {
    let code = compile("while x { x = 0; }");
    assert_eq!(
        code,
        vec![
            OpCode::LoadGlobal("x".to_owned()),
            OpCode::JmpIfNot(7),
            OpCode::EnterScope,
            OpCode::Push(Value::Integer(0)),
            OpCode::StoreGlobal("x".to_owned()),
            OpCode::ExitScope,
            OpCode::Jmp(0),
        ]
    );
}

#[test]
fn locals_of_blocks_and_functions() {
    let code = compile("{ let a = 1; a; } let f = fn(x) { let y = x; return y; };");
    let body = vec![
        OpCode::LoadLocal(1, 0),
        OpCode::StoreLocal(1, 1),
        OpCode::LoadLocal(1, 1),
        OpCode::Ret,
        OpCode::ExitScope,
    ];
    assert_eq!(
        code,
        vec![
            OpCode::EnterScope,
            OpCode::Push(Value::Integer(1)),
            OpCode::StoreLocal(1, 0),
            OpCode::LoadLocal(1, 0),
            OpCode::ExitScope,
            OpCode::PushFn(1, body),
            OpCode::StoreGlobal("f".to_owned()),
        ]
    );
}

#[test]
fn short_circuit_operators() {
    let code = compile("a and b or c;");
    assert_eq!(
        code,
        vec![
            OpCode::LoadGlobal("a".to_owned()),
            OpCode::And(3),
            OpCode::LoadGlobal("b".to_owned()),
            OpCode::Or(5),
            OpCode::LoadGlobal("c".to_owned()),
        ]
    );
}

#[test]
fn compound_assignment_and_calls() {
    let code = compile("n -= f(1);");
    assert_eq!(
        code,
        vec![
            OpCode::LoadGlobal("n".to_owned()),
            OpCode::LoadGlobal("f".to_owned()),
            OpCode::Push(Value::Integer(1)),
            OpCode::Call(1),
            OpCode::Sub,
            OpCode::StoreGlobal("n".to_owned()),
        ]
    );
}

#[test]
fn compile_appends_to_earlier_code() {
    let mut lexer = Lexer::new("1; 2;".to_owned());
    let mut parser = Parser::new(lexer.tokenize().unwrap());
    let stmts = parser.parse().unwrap();
    let mut compiler = Compiler::new();
    let first = compiler.compile(&stmts);
    assert_eq!(first.len(), 2);
    let all = compiler.compile(&stmts);
    assert_eq!(all.len(), 4);
    compiler.compile_stmt(&stmts[0]);
    let again = compiler.compile(&vec![]);
    assert_eq!(again.len(), 5);
}

fn check_jumps(code: &[OpCode]) {
    for op in code {
        match op {
            OpCode::Jmp(t) | OpCode::JmpIfNot(t) | OpCode::JmpIf(t) | OpCode::And(t) | OpCode::Or(t) => {
                assert!(*t <= code.len())
            }
            OpCode::PushFn(_, body) => check_jumps(body),
            _ => {}
        }
    }
}

#[test]
fn compiled_jumps_stay_inside_the_code() {
    let code = compile(
        "let f = fn(n) { while n > 0 { if n == 3 and true { return n; } else { n -= 1; } } return 0 or 1; }; f(5);",
    );
    check_jumps(&code);
    assert!(code.iter().any(|op| matches!(op, OpCode::PushFn(..))));
}

fn s(t: &str) -> OpCode {
    OpCode::Push(Value::String(t.to_owned()))
}

#[test]
fn field_reads_and_method_calls() {
    let code = compile("a.b; a:m(1);");
    assert_eq!(
        code,
        vec![
            OpCode::LoadGlobal("a".to_owned()),
            s("b"),
            OpCode::Index,
            OpCode::LoadGlobal("a".to_owned()),
            OpCode::Dup(1),
            s("m"),
            OpCode::Index,
            OpCode::Swap2,
            OpCode::Push(Value::Integer(1)),
            OpCode::Call(2),
        ]
    );
}

#[test]
fn index_assignment_code() {
    let code = compile("a[1] = 2; a.x += 3;");
    assert_eq!(
        code,
        vec![
            OpCode::LoadGlobal("a".to_owned()),
            OpCode::Push(Value::Integer(1)),
            OpCode::Push(Value::Integer(2)),
            OpCode::IndexAssign(false),
            OpCode::LoadGlobal("a".to_owned()),
            s("x"),
            OpCode::Dup(2),
            OpCode::Index,
            OpCode::Push(Value::Integer(3)),
            OpCode::Add,
            OpCode::IndexAssign(false),
        ]
    );
}

#[test]
fn array_table_and_concat_code() {
    let code = compile("[1, 2] .. {};");
    assert_eq!(
        code,
        vec![
            OpCode::Push(Value::Integer(1)),
            OpCode::Push(Value::Integer(2)),
            OpCode::NewArray(2),
            OpCode::NewTable,
            OpCode::Concat,
        ]
    );
}

#[test]
fn if_else_jumps_to_the_else_branch() {
    let code = compile("if false 1; else 2;");
    assert_eq!(
        code,
        vec![
            OpCode::Push(Value::Bool(false)),
            OpCode::JmpIfNot(4),
            OpCode::Push(Value::Integer(1)),
            OpCode::Jmp(5),
            OpCode::Push(Value::Integer(2)),
        ]
    );
}

#[test]
fn compound_assignment_compiles_as_the_written_out_one() {
    assert_eq!(compile("x += 1;"), compile("x = x + 1;"));
    assert_eq!(
        compile("x += 1;"),
        vec![
            OpCode::LoadGlobal("x".to_owned()),
            OpCode::Push(Value::Integer(1)),
            OpCode::Add,
            OpCode::StoreGlobal("x".to_owned()),
        ]
    );
    assert_eq!(compile("y /= 2 - 1;"), compile("y = y / (2 - 1);"));
}

#[test]
fn redeclared_locals_keep_their_slot() {
    let code = compile("{ let a = 1; let a = 2; let b = 3; }");
    assert_eq!(
        code,
        vec![
            OpCode::EnterScope,
            OpCode::Push(Value::Integer(1)),
            OpCode::StoreLocal(1, 0),
            OpCode::Push(Value::Integer(2)),
            OpCode::StoreLocal(1, 0),
            OpCode::Push(Value::Integer(3)),
            OpCode::StoreLocal(1, 1),
            OpCode::ExitScope,
        ]
    );
}
