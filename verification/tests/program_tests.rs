use lox_vm::compiler::compile;
use lox_vm::value::Value;
use lox_vm::vm::{InterpretResult, RunResult, VM};

fn run_program(source: &str) -> (RunResult, VM) {
    let chunk = match compile(source.as_bytes().to_vec()) {
        Ok(c) => c,
        Err(_) => panic!("program failed to compile: {}", source),
    };
    let mut vm = VM::new();
    let result = vm.run(&chunk, 1_000_000);
    (result, vm)
}

fn output_numbers(vm: &VM) -> Vec<i64> {
    let mut out = Vec::new();
    for v in vm.output.iter() {
        out.push(v.as_number());
    }
    out
}

#[test]
fn print_arithmetic_precedence() {
    let (r, vm) = run_program("print 1 + 2 * 3;");
    assert_eq!(r, RunResult::Okay);
    assert_eq!(output_numbers(&vm), vec![7]);
    assert_eq!(interpret_kind("print 1 + 2 * 3;"), InterpretResult::Okay);
}

#[test]
fn print_string_concatenation() {
    let (r, vm) = run_program("var a = \"hi\"; var b = \" there\"; print a + b;");
    assert_eq!(r, RunResult::Okay);
    assert_eq!(vm.output.len(), 1);
    assert_eq!(vm.output[0].as_rust_string(), &"hi there".as_bytes().to_vec());
}

#[test]
fn while_loop_counts() {
    let (r, vm) = run_program("var x = 0; while (x < 3) { print x; x = x + 1; }");
    assert_eq!(r, RunResult::Okay);
    assert_eq!(output_numbers(&vm), vec![0, 1, 2]);
}

#[test]
fn if_else_takes_the_true_branch() {
    let (r, vm) = run_program("if (1 < 2) print \"yes\"; else print \"no\";");
    assert_eq!(r, RunResult::Okay);
    assert_eq!(vm.output.len(), 1);
    assert_eq!(vm.output[0].as_rust_string(), &"yes".as_bytes().to_vec());
}

#[test]
fn undefined_global_is_a_runtime_error() {
    let (r, vm) = run_program("print undefined_name;");
    assert_eq!(r, RunResult::RuntimeError);
    assert_eq!(
        vm.runtime_message,
        Some("Undefined variable 'undefined_name'.".as_bytes().to_vec())
    );
    assert_eq!(interpret_kind("print undefined_name;"), InterpretResult::RuntimeError);
}

#[test]
fn adding_number_and_string_is_a_runtime_error() {
    let (r, vm) = run_program("print 1 + \"a\";");
    assert_eq!(r, RunResult::RuntimeError);
    assert_eq!(vm.runtime_message, Some("Operands must be numbers.".as_bytes().to_vec()));
    assert_eq!(interpret_kind("print 1 + \"a\";"), InterpretResult::RuntimeError);
}

#[test]
fn shadowing_local_does_not_clobber_outer() {
    let (r, vm) = run_program("var a = 1; { var a = 2; print a; } print a;");
    assert_eq!(r, RunResult::Okay);
    assert_eq!(output_numbers(&vm), vec![2, 1]);
}

#[test]
fn for_loop_prints_zero_to_n() {
    // Desugared for-loop behaviour for bodies of zero, one and five turns.
    for (n, expected) in [
        (0i64, Vec::<i64>::new()),
        (1, vec![0]),
        (5, vec![0, 1, 2, 3, 4]),
    ] {
        let src = format!("for (var i = 0; i < {}; i = i + 1) print i;", n);
        let (r, vm) = run_program(&src);
        assert_eq!(r, RunResult::Okay, "loop to {}", n);
        assert_eq!(output_numbers(&vm), expected, "loop to {}", n);
    }
}

#[test]
fn not_maps_exactly_the_falsey_values() {
    let (r, vm) = run_program("print !nil; print !false; print !true; print !0; print !\"\";");
    assert_eq!(r, RunResult::Okay);
    let expected = [true, true, false, false, false];
    assert_eq!(vm.output.len(), expected.len());
    for (v, e) in vm.output.iter().zip(expected.iter()) {
        assert_eq!(v.as_bool(), *e);
    }
}

#[test]
fn equality_in_programs() {
    let (r, vm) = run_program(
        "print 1 == 1; print 1 == 2; print \"a\" == \"a\"; print 1 == \"1\"; print nil == nil; print 1 != 2;",
    );
    assert_eq!(r, RunResult::Okay);
    let expected = [true, false, true, false, true, true];
    for (v, e) in vm.output.iter().zip(expected.iter()) {
        assert_eq!(v.as_bool(), *e);
    }
}

#[test]
fn comparisons_and_two_byte_operators() {
    let (r, vm) = run_program("print 2 > 1; print 2 >= 2; print 1 < 1; print 1 <= 1;");
    assert_eq!(r, RunResult::Okay);
    let expected = [true, true, false, true];
    for (v, e) in vm.output.iter().zip(expected.iter()) {
        assert_eq!(v.as_bool(), *e);
    }
}

#[test]
fn arithmetic_wraps_on_overflow() {
    let (r, vm) = run_program("print 9223372036854775807 + 1;");
    assert_eq!(r, RunResult::Okay);
    assert_eq!(output_numbers(&vm), vec![i64::MIN]);
}

#[test]
fn division_truncates_and_rejects_zero() {
    let (r, vm) = run_program("print 7 / 2; print 0 - 7 / 2;");
    assert_eq!(r, RunResult::Okay);
    assert_eq!(output_numbers(&vm), vec![3, -3]);

    let (r2, vm2) = run_program("print 1 / 0;");
    assert_eq!(r2, RunResult::RuntimeError);
    assert_eq!(vm2.runtime_message, Some("Division by zero.".as_bytes().to_vec()));
}

#[test]
fn negate_needs_a_number() {
    let (r, vm) = run_program("print -5;");
    assert_eq!(r, RunResult::Okay);
    assert_eq!(output_numbers(&vm), vec![-5]);

    let (r2, vm2) = run_program("print -\"x\";");
    assert_eq!(r2, RunResult::RuntimeError);
    assert_eq!(vm2.runtime_message, Some("Operand must be a number.".as_bytes().to_vec()));
}

#[test]
fn and_or_short_circuit() {
    let (r, vm) = run_program("print 1 and 2; print false and 2; print nil or 3; print 4 or 5;");
    assert_eq!(r, RunResult::Okay);
    assert_eq!(vm.output.len(), 4);
    assert_eq!(vm.output[0].as_number(), 2);
    assert!(!vm.output[1].as_bool());
    assert_eq!(vm.output[2].as_number(), 3);
    assert_eq!(vm.output[3].as_number(), 4);
}

#[test]
fn global_assignment_is_an_expression() {
    let (r, vm) = run_program("var a = 1; print a = 5; print a;");
    assert_eq!(r, RunResult::Okay);
    assert_eq!(output_numbers(&vm), vec![5, 5]);
}

#[test]
fn local_assignment_and_reads() {
    let (r, vm) = run_program("{ var a = 1; var b = 2; a = a + b; print a; print b; }");
    assert_eq!(r, RunResult::Okay);
    assert_eq!(output_numbers(&vm), vec![3, 2]);
}

#[test]
fn assigning_an_undefined_global_is_a_runtime_error() {
    let (r, vm) = run_program("ghost_name = 1;");
    assert_eq!(r, RunResult::RuntimeError);
    assert_eq!(
        vm.runtime_message,
        Some("Undefined variable 'ghost_name'.".as_bytes().to_vec())
    );
}

fn interpret_kind(source: &str) -> InterpretResult {
    lox_vm::vm::interpret(source.as_bytes().to_vec())
}

#[test]
fn interpret_reports_compile_errors() {
    assert_eq!(interpret_kind("print ;"), InterpretResult::CompileError);
    assert_eq!(interpret_kind("var a = 1; { var a = a; }"), InterpretResult::CompileError);
}
