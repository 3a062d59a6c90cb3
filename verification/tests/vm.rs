use atoy::ast::{BinOp, CmpOp};
use atoy::compiler::Compiler;
use atoy::lexer::Lexer;
use atoy::parser::Parser;
use atoy::runtime::RuntimeError;
use atoy::value::{OpCode, Value};
use atoy::vm::{Action, FloatTask, VM};

fn number(v: &Value) -> f64 {
    match v {
        Value::Integer(n) => *n as f64,
        Value::Float(t) => t.parse::<f64>().unwrap(),
        other => panic!("not a number: {:?}", other),
    }
}

fn float_answer(task: FloatTask) -> Value {
    match task {
        FloatTask::Literal(t) => Value::Float(format!("{}", t.parse::<f64>().unwrap())),
        FloatTask::Neg(t) => Value::Float(format!("{}", -t.parse::<f64>().unwrap())),
        FloatTask::Arith(op, a, b) => {
            let (x, y) = (number(&a), number(&b));
            let r = match op {
                BinOp::Add => x + y,
                BinOp::Sub => x - y,
                BinOp::Mul => x * y,
                BinOp::Div => x / y,
            };
            Value::Float(format!("{}", r))
        }
        FloatTask::Compare(op, a, b) => {
            let (x, y) = (number(&a), number(&b));
            Value::Bool(match op {
                CmpOp::Eq => x == y,
                CmpOp::NEq => x != y,
                CmpOp::Gt => x > y,
                CmpOp::Lt => x < y,
                CmpOp::Gte => x >= y,
                CmpOp::Lte => x <= y,
            })
        }
    }
}

fn compile(src: &str) -> Vec<OpCode> {
    let mut lexer = Lexer::new(src.to_owned());
    let tokens = lexer.tokenize().unwrap();
    let mut parser = Parser::new(tokens);
    let stmts = parser.parse().unwrap();
    Compiler::compile_program(&stmts)
}

fn drive(vm: &mut VM, inputs: &[&str]) -> (Vec<String>, Option<Value>) {
    let mut printed = Vec::new();
    let mut next_input = 0;
    loop {
        match vm.run_until_host(1_000_000, &mut printed) {
            Action::Done(r) => return (printed, r),
            Action::Continue => {}
            Action::Float(task) => vm.answer_value(float_answer(task)),
            Action::Input(prompt) => {
                printed.push(format!("prompt:{}", prompt));
                vm.answer_input(&inputs[next_input].to_owned());
                next_input += 1;
            }
            Action::Native(id, args) => {
                if id == 7 {
                    vm.answer_value(Value::Integer(args.len() as i64));
                } else {
                    vm.answer_error(&RuntimeError::IndexError { index: id, len: 0 });
                }
            }
            other => panic!("unexpected {:?}", other),
        }
    }
}

fn run(src: &str) -> (Vec<String>, Option<Value>) {
    let mut vm = VM::new(compile(src));
    vm.start();
    drive(&mut vm, &[])
}

const FIB: &str = "let a = 0; let b = 1; let tmp = 0; let count = 0; while count < 91 {tmp = b; b = a + b; a = tmp; count = count + 1; } a;";

#[test]
fn vm_test() {
    let (printed, result) = run(FIB);
    assert!(printed.is_empty());
    assert_eq!(result, Some(Value::Integer(4660046610375530309)));
}

#[test]
fn vm_vm_test() {
    let mut vm = VM::new(compile(FIB));
    vm.start();
    let (_, result) = drive(&mut vm, &[]);
    assert_eq!(result, Some(Value::Integer(4660046610375530309)));
}

#[test]
fn recursive_closure_fib() {
    let src = "let fib = fn(n) { if n == 1 or n == 2 return 1; return fib(n - 1) + fib(n - 2); }; \
               let n = 1; while n < 11 { println(fib(n)); n = n + 1; }";
    let (printed, _) = run(src);
    assert_eq!(printed, vec!["1", "1", "2", "3", "5", "8", "13", "21", "34", "55"]);
}

#[test]
fn closures_share_captured_scopes() {
    let src = "let make = fn() { let count = 0; return fn() { count = count + 1; return count; }; }; \
               let c = make(); c(); c(); c();";
    let (_, result) = run(src);
    assert_eq!(result, Some(Value::Integer(3)));
}

#[test]
fn println_joins_with_spaces() {
    let (printed, _) = run("println(1, \"two\", true, 2.50, println);");
    assert_eq!(printed, vec!["1 two true 2.5 Builtin Function at println"]);
}

#[test]
fn float_arithmetic_goes_through_the_host() {
    let (_, result) = run("1.5 + 2;");
    assert_eq!(result, Some(Value::Float("3.5".to_owned())));
    let (_, cmp) = run("0.5 < 1;");
    assert_eq!(cmp, Some(Value::Bool(true)));
}

#[test]
fn else_branch_runs_when_the_condition_is_false() {
    let (printed, _) = run("if 1 == 2 { println(\"then\"); } else { println(\"else\"); }");
    assert_eq!(printed, vec!["else"]);
    let (printed2, _) = run("if 1 == 1 { println(\"then\"); } else { println(\"else\"); }");
    assert_eq!(printed2, vec!["then"]);
}

#[test]
fn runtime_error_is_printed_and_ends_the_run() {
    let (printed, result) = run("1 + true; println(2);");
    assert_eq!(printed, vec!["RuntimeError:\n  TypeError:  expected type (int | float, int | float) but found (int, bool)"]);
    assert_eq!(result, None);
}

#[test]
fn error_in_a_function_returns_none_to_the_caller() {
    let (printed, result) = run("let f = fn() { return -true; }; f();");
    assert_eq!(printed, vec!["RuntimeError:\n  TypeError: Operator '-'  expected type int but found bool"]);
    assert_eq!(result, Some(Value::Nil));
}

#[test]
fn calling_with_the_wrong_number_of_arguments() {
    let (printed, result) = run("let f = fn(a, b) { return a; }; f(1);");
    assert_eq!(printed, vec!["RuntimeError:\n  ParamError: Function takes 2 args but 1 were provided"]);
    assert_eq!(result, None);
}

#[test]
fn calling_a_number() {
    let (printed, _) = run("1(2);");
    assert_eq!(printed, vec!["RuntimeError:\n  TypeError: Function call expected type function but found int"]);
}

#[test]
fn tables_prototypes_and_metatables() {
    let src = "let meta = Table(); let proto = Table(); let t = Table(); \
               setPrototypeOf(t, proto); setMetatableOf(t, meta); \
               println(type(getPrototypeOf(t)), type(getMetatableOf(t))); \
               clearPrototypeOf(t); println(getPrototypeOf(t)); t + 1;";
    let (printed, result) = run(src);
    assert_eq!(printed[0], "table table");
    assert_eq!(printed[1], "None");
    assert_eq!(printed[2], "RuntimeError:\n  OperatorNotSupportedError: Operator `+` is not supported for `Table#0 {}`");
    assert_eq!(result, None);
}

#[test]
fn truthiness_of_strings_and_numbers() {
    let (_, r1) = run("not \"\";");
    assert_eq!(r1, Some(Value::Bool(false)));
    let (_, r2) = run("not \"x\";");
    assert_eq!(r2, Some(Value::Bool(true)));
    let (_, r3) = run("not 0;");
    assert_eq!(r3, Some(Value::Bool(true)));
    let (_, r4) = run("0 or 5;");
    assert_eq!(r4, Some(Value::Integer(5)));
    let (_, r5) = run("3 and 4;");
    assert_eq!(r5, Some(Value::Integer(4)));
}

#[test]
fn input_reads_a_line_without_its_ending() {
    let mut vm = VM::new(compile("let s = input(\"name? \"); println(s, type(s));"));
    vm.start();
    let (printed, _) = drive(&mut vm, &["bob\r\n"]);
    assert_eq!(printed, vec!["prompt:name? ", "bob string"]);
}

#[test]
fn registered_functions_are_called_through_the_host() {
    let mut vm = VM::new(compile("count(1, 2, 3); bad();"));
    vm.register_func(&"count".to_owned(), 7);
    vm.register_func(&"bad".to_owned(), 9);
    vm.start();
    let (printed, result) = drive(&mut vm, &[]);
    assert_eq!(printed, vec!["RuntimeError:\n  IndexError: Index 9 out of bounds for length 0"]);
    assert_eq!(result, None);
}

#[test]
fn integer_overflow_is_a_fault() {
    let mut vm = VM::new(compile("9223372036854775807 + 1;"));
    vm.start();
    let mut printed = Vec::new();
    assert_eq!(
        vm.run_until_host(100, &mut printed),
        Action::Fault("attempt to add with overflow".to_owned())
    );
}

#[test]
fn division_by_zero_is_a_fault() {
    let mut vm = VM::new(compile("1 / 0;"));
    vm.start();
    let mut printed = Vec::new();
    assert_eq!(vm.run_until_host(100, &mut printed), Action::Fault("attempt to divide by zero".to_owned()));
}

#[test]
fn hand_written_code_with_arrays_and_indexing() {
    let code = vec![
        OpCode::Push(Value::Integer(10)),
        OpCode::Push(Value::Integer(20)),
        OpCode::NewArray(2),
        OpCode::Dup(1),
        OpCode::Push(Value::Integer(2)),
        OpCode::Push(Value::Integer(30)),
        OpCode::IndexAssign(true),
        OpCode::Push(Value::Integer(2)),
        OpCode::Index,
    ];
    let mut vm = VM::new(code);
    vm.start();
    let (_, result) = drive(&mut vm, &[]);
    assert_eq!(result, Some(Value::Integer(30)));
}

#[test]
fn table_fields_and_prototype_lookup() {
    let code = vec![
        OpCode::NewTable,
        OpCode::StoreGlobal("p".to_owned()),
        OpCode::LoadGlobal("p".to_owned()),
        OpCode::Push(Value::String("k".to_owned())),
        OpCode::Push(Value::Integer(5)),
        OpCode::IndexAssign(false),
        OpCode::NewTable,
        OpCode::StoreGlobal("t".to_owned()),
        OpCode::LoadGlobal("setPrototypeOf".to_owned()),
        OpCode::LoadGlobal("t".to_owned()),
        OpCode::LoadGlobal("p".to_owned()),
        OpCode::Call(2),
        OpCode::LoadGlobal("t".to_owned()),
        OpCode::Push(Value::String("k".to_owned())),
        OpCode::Index,
    ];
    let mut vm = VM::new(code);
    vm.start();
    let (_, result) = drive(&mut vm, &[]);
    assert_eq!(result, Some(Value::Integer(5)));
}

#[test]
fn string_methods_through_the_string_table() {
    let code = vec![
        OpCode::Push(Value::String("Hello".to_owned())),
        OpCode::Push(Value::String("upper".to_owned())),
        OpCode::Index,
        OpCode::Push(Value::String("Hello".to_owned())),
        OpCode::Call(1),
    ];
    let mut vm = VM::new(code);
    vm.start();
    let (_, result) = drive(&mut vm, &[]);
    assert_eq!(result, Some(Value::String("HELLO".to_owned())));
}

#[test]
fn concat_joins_texts() {
    let code = vec![
        OpCode::Push(Value::String("n=".to_owned())),
        OpCode::Push(Value::Integer(3)),
        OpCode::Concat,
    ];
    let mut vm = VM::new(code);
    vm.start();
    let (_, result) = drive(&mut vm, &[]);
    assert_eq!(result, Some(Value::String("n=3".to_owned())));
}

#[test]
fn metatable_overloads_addition() {
    let src = "let meta = Table(); let a = Table(); setMetatableOf(a, meta); \
               let add = fn(x, y) { return 42; };";
    let mut code = compile(src);
    let tail = vec![
        OpCode::LoadGlobal("meta".to_owned()),
        OpCode::Push(Value::String("add".to_owned())),
        OpCode::LoadGlobal("add".to_owned()),
        OpCode::IndexAssign(false),
        OpCode::LoadGlobal("a".to_owned()),
        OpCode::Push(Value::Integer(1)),
        OpCode::Add,
    ];
    code.extend(tail);
    let mut vm = VM::new(code);
    vm.start();
    let (_, result) = drive(&mut vm, &[]);
    assert_eq!(result, Some(Value::Integer(42)));
}

#[test]
fn repl_runs_share_globals() {
    let mut vm = VM::new(compile("let x = 41;"));
    vm.start();
    let _ = drive(&mut vm, &[]);
    vm.replace_code(compile("x + 1;"));
    vm.start();
    let (_, result) = drive(&mut vm, &[]);
    assert_eq!(result, Some(Value::Integer(42)));
    assert_eq!(vm.peek_code().len(), 3);
}

#[test]
fn thrown_error_is_printed_at_the_next_step() {
    let mut vm = VM::new(compile("1;"));
    vm.start();
    vm.throw(&RuntimeError::IndexError { index: 3, len: 1 });
    let mut printed = Vec::new();
    let r = vm.run_until_host(10, &mut printed);
    assert_eq!(printed, vec!["RuntimeError:\n  IndexError: Index 3 out of bounds for length 1"]);
    assert_eq!(r, Action::Done(None));
}

#[test]
fn reading_a_table_field_after_writing_it() {
    let code = vec![
        OpCode::NewTable,
        OpCode::Dup(1),
        OpCode::Push(Value::Bool(true)),
        OpCode::Push(Value::String("v".to_owned())),
        OpCode::IndexAssign(false),
        OpCode::Push(Value::Bool(true)),
        OpCode::Index,
    ];
    let mut vm = VM::new(code);
    vm.start();
    let (_, result) = drive(&mut vm, &[]);
    assert_eq!(result, Some(Value::String("v".to_owned())));
}

#[test]
fn classes_with_prototypes_and_an_overloaded_plus() {
    let src = "let meta = {}; let Class = {};
        Class.new = fn() { let a = {}; setMetatableOf(a, meta); setPrototypeOf(a, Class); return a; };
        meta.add = fn(self, other) { return self:add(other); };
        Class.add = fn(self, other) { return [self, other]; };
        let obj = Class.new();
        let pair = obj + obj;
        println(type(pair), pair:len(), type(pair[1]), type(obj.new), type(obj.missing));";
    let (printed, _) = run(src);
    assert_eq!(printed, vec!["array 2 table function none"]);
}

#[test]
fn string_and_array_methods_with_a_colon() {
    let src = "let a = [1, 2]; a:push(3);
        println(\"Hello\":len(), \"ff\":toInteger(16), \"abc\":upper(), a:len(), a[2]);";
    let (printed, _) = run(src);
    assert_eq!(printed, vec!["5 255 ABC 3 3"]);
}

#[test]
fn fields_are_written_read_and_inherited() {
    let src = "let t = {}; t.x = 1; t.x += 2; t[\"y\"] = t.x * 2;
        let c = {}; setPrototypeOf(c, t); c.z = 5;
        println(t.x, t.y, c.x, c.z, t.z);";
    let (printed, _) = run(src);
    assert_eq!(printed, vec!["3 6 3 5 None"]);
}

#[test]
fn concat_converts_its_operands() {
    let (_, result) = run("\"n=\" .. 1 .. true;");
    assert_eq!(result, Some(Value::String("n=1true".to_owned())));
    let (printed, _) = run("println([] .. 1);");
    assert_eq!(printed.len(), 1);
    assert!(printed[0].starts_with("RuntimeError:"));
}

#[test]
fn conditions_follow_the_truth_rules() {
    let (_, r) = run("let r = 0; if 0 { r = 1; } r;");
    assert_eq!(r, Some(Value::Integer(0)));
    let (_, r2) = run("let r = 0; if println { r = 1; } r;");
    assert_eq!(r2, Some(Value::Integer(1)));
    let (_, r3) = run("let r = 0; if nothing { r = 1; } else { r = 2; } r;");
    assert_eq!(r3, Some(Value::Integer(2)));
    let (_, r4) = run("let n = 3; let k = 0; while n { n = n - 1; k = k + 1; } k;");
    assert_eq!(r4, Some(Value::Integer(3)));
}

#[test]
fn redeclared_local_and_a_new_one_stay_apart() {
    let (printed, _) = run("{ let a = 1; let a = 2; let b = 3; println(a, b); }");
    assert_eq!(printed, vec!["2 3"]);
}

fn run_to_fault(src: &str) -> Action {
    let mut vm = VM::new(compile(src));
    vm.start();
    let mut printed = Vec::new();
    loop {
        match vm.run_until_host(1_000_000, &mut printed) {
            Action::Continue => {}
            Action::Float(task) => vm.answer_value(float_answer(task)),
            other => return other,
        }
    }
}

#[test]
fn a_metatable_function_may_not_write_to_its_table() {
    let writes = "let meta = {}; let a = {}; setMetatableOf(a, meta);
        meta.add = fn(self, other) { self.x = other; return 1; };
        a + 2;";
    assert_eq!(run_to_fault(writes), Action::Fault("already borrowed: BorrowMutError".to_owned()));
    let clears = "let meta = {}; let a = {}; setMetatableOf(a, meta);
        meta.add = fn(self, other) { clearMetatableOf(self); return 1; };
        a + 2;";
    assert_eq!(run_to_fault(clears), Action::Fault("already borrowed: BorrowMutError".to_owned()));
    let builtin = "let meta = {}; let a = {}; setMetatableOf(a, meta);
        meta.add = setPrototypeOf; a + {};";
    assert_eq!(run_to_fault(builtin), Action::Fault("already borrowed: BorrowMutError".to_owned()));
    let reads = "let meta = {}; let a = {}; a.v = 5; setMetatableOf(a, meta);
        let other = {};
        meta.add = fn(self, n) { other.y = n; return self.v + n; };
        let r = a + 2; a.v = r; a.v + other.y;";
    assert_eq!(run_to_fault(reads), Action::Done(Some(Value::Integer(9))));
}
