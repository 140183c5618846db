use exp_lang::interpreter::semantics::RuntimeError;
use exp_lang::interpreter::{eval, eval_with_limit, Primitive, DEFAULT_DEPTH};
use exp_lang::parser::parse;
use exp_lang::{run, RunError};

fn value_of(source: &str) -> Primitive {
    match run(source.to_string()) {
        Ok(value) => value,
        Err(e) => panic!("{:?} gave {:?}", source, e),
    }
}

fn error_of(source: &str) -> RuntimeError {
    match run(source.to_string()) {
        Err(RunError::Runtime(e)) => e,
        other => panic!("{:?} gave {:?}", source, other),
    }
}

#[test]
fn end_to_end_sum_of_two_locals() {
    assert_eq!(
        value_of("func main() = { let x = 2; let y = 3; x + y }"),
        Primitive::Number(5)
    );
}

#[test]
fn multiplication_binds_tighter_than_addition() {
    assert_eq!(value_of("func main() = 1 + 2 * 3"), Primitive::Number(7));
    assert_eq!(value_of("func main() = 2 * 3 + 1"), Primitive::Number(7));
}

#[test]
fn parentheses_override_precedence() {
    assert_eq!(value_of("func main() = (1 + 2) * 3"), Primitive::Number(9));
}

#[test]
fn subtraction_groups_to_the_left() {
    assert_eq!(value_of("func main() = 2 - 3 - 4"), Primitive::Number(-5));
    assert_eq!(value_of("func main() = 100 / 10 / 5"), Primitive::Number(2));
}

#[test]
fn prefix_minus_binds_tighter_than_binary_operators() {
    assert_eq!(value_of("func main() = -2 * 3"), Primitive::Number(-6));
    assert_eq!(value_of("func main() = 1 - -2"), Primitive::Number(3));
    assert_eq!(value_of("func main() = - - 4"), Primitive::Number(4));
}

#[test]
fn postfix_binds_tighter_than_prefix_minus() {
    assert_eq!(value_of("func main() = -[1, 2, 3][1]"), Primitive::Number(-2));
    assert_eq!(value_of("func two() = 2 func main() = -two()"), Primitive::Number(-2));
}

#[test]
fn range_binds_looser_than_addition() {
    assert_eq!(
        value_of("func main() = 1 + 1..2 * 3"),
        Primitive::Range { begin: 2, fin: Some(6) }
    );
}

#[test]
fn equality_binds_looser_than_arithmetic() {
    assert_eq!(value_of("func main() = 1 + 2 == 3"), Primitive::Bool(true));
    assert_eq!(value_of("func main() = 1 + 2 == 2 * 2"), Primitive::Bool(false));
    assert_eq!(value_of("func main() = true == false"), Primitive::Bool(false));
}

#[test]
fn assignment_groups_to_the_right_and_binds_loosest() {
    // `x = y = 3` is `x = (y = 3)`: the inner assignment yields nothing, and
    // nothing is of another kind than the number that `x` holds.
    assert_eq!(
        error_of("func main() = { let x = 1; let y = 2; x = y = 3; x }"),
        RuntimeError::AssignTypeMismatch
    );
    assert_eq!(
        value_of("func main() = { let x = 1; x = 2 + 3 * 4; x }"),
        Primitive::Number(14)
    );
}

#[test]
fn assignment_yields_nothing() {
    assert_eq!(value_of("func main() = { let x = 1; x = 2 }"), Primitive::Nothing);
}

#[test]
fn block_local_does_not_leak_and_outer_value_comes_back() {
    assert_eq!(
        value_of("func main() = { let x = 5; { let x = 1; x }; x }"),
        Primitive::Number(5)
    );
}

#[test]
fn block_local_does_not_leak_where_no_outer_binding_exists() {
    assert_eq!(
        error_of("func main() = { { let x = 1; x }; x }"),
        RuntimeError::UndefinedVariable
    );
}

#[test]
fn inner_let_shadows_for_the_rest_of_the_inner_scope() {
    assert_eq!(
        value_of("func main() = { let x = 5; { let x = 1; x + 10 } }"),
        Primitive::Number(11)
    );
}

#[test]
fn assignment_reaches_the_outer_variable() {
    assert_eq!(
        value_of("func main() = { let x = 5; { x = 6; }; x }"),
        Primitive::Number(6)
    );
}

#[test]
fn assignment_keeps_the_kind() {
    assert_eq!(
        value_of("func main() = { let x = 1; x = 2; x }"),
        Primitive::Number(2)
    );
}

#[test]
fn assignment_of_another_kind_fails() {
    assert_eq!(
        error_of("func main() = { let x = 1; x = true; x }"),
        RuntimeError::AssignTypeMismatch
    );
    assert_eq!(
        error_of("func main() = { let s = \"a\"; s = 1; s }"),
        RuntimeError::AssignTypeMismatch
    );
}

#[test]
fn assignment_to_an_unbound_name_fails() {
    assert_eq!(error_of("func main() = { x = 1; }"), RuntimeError::UndefinedVariable);
}

#[test]
fn assignment_to_what_is_no_name_fails() {
    assert_eq!(error_of("func main() = { 1 = 2; }"), RuntimeError::TypeError);
    assert_eq!(
        error_of("func main() = { let a = [1]; a[0] = 2; }"),
        RuntimeError::TypeError
    );
}

#[test]
fn function_does_not_see_the_callers_locals() {
    assert_eq!(
        error_of("func f() = y func main() = { let y = 1; f() }"),
        RuntimeError::UndefinedVariable
    );
}

#[test]
fn function_sees_the_global_of_the_same_name() {
    assert_eq!(
        value_of("let y = 7 func f() = y func main() = { let y = 1; f() }"),
        Primitive::Number(7)
    );
}

#[test]
fn function_does_not_see_a_loop_variable() {
    assert_eq!(
        error_of("func f() = i func main() = { for i in 0..3 { f() }; 0 }"),
        RuntimeError::UndefinedVariable
    );
}

#[test]
fn callers_locals_come_back_unchanged_and_in_order() {
    let source = "func f(x) = x + 1
        func main() = { let a = 1; { let a = 10; { let b = 100; let c = f(b); a + b + c } } }";
    assert_eq!(value_of(source), Primitive::Number(211));
}

#[test]
fn function_may_change_a_global() {
    assert_eq!(
        value_of("let count = 0 func bump() = count = count + 1 func main() = { bump(); bump(); count }"),
        Primitive::Number(2)
    );
}

#[test]
fn function_sees_globals_defined_after_it() {
    assert_eq!(
        value_of("func f() = late func main() = f() let late = 3"),
        Primitive::Number(3)
    );
}

#[test]
fn parameters_are_bound_to_arguments_in_order() {
    assert_eq!(
        value_of("func sub(a, b) = a - b func main() = sub(10, 3)"),
        Primitive::Number(7)
    );
}

#[test]
fn arguments_are_evaluated_in_the_callers_scope() {
    assert_eq!(
        value_of("func id(a) = a func main() = { let local = 4; id(local * 2) }"),
        Primitive::Number(8)
    );
}

#[test]
fn too_few_or_too_many_arguments_fail() {
    assert_eq!(error_of("func f(a) = a func main() = f()"), RuntimeError::ArityError);
    assert_eq!(error_of("func f(a) = a func main() = f(1, 2)"), RuntimeError::ArityError);
    assert_eq!(error_of("func main(a) = a"), RuntimeError::ArityError);
}

#[test]
fn calling_what_is_no_function_fails() {
    assert_eq!(error_of("func main() = { let x = 1; x() }"), RuntimeError::TypeError);
}

#[test]
fn program_without_main_fails() {
    assert_eq!(error_of("let x = 1"), RuntimeError::UndefinedVariable);
    assert_eq!(error_of(""), RuntimeError::UndefinedVariable);
    assert_eq!(error_of("let main = 1"), RuntimeError::TypeError);
}

#[test]
fn range_loop_binds_each_number_in_order() {
    assert_eq!(
        value_of("func main() = { let acc = 0; for i in 0..3 { acc = acc * 10 + i + 1 }; acc }"),
        Primitive::Number(123)
    );
}

#[test]
fn empty_range_runs_no_turn() {
    assert_eq!(
        value_of("func main() = { let acc = 7; for i in 0..0 { acc = 1 }; acc }"),
        Primitive::Number(7)
    );
    assert_eq!(
        value_of("func main() = { let acc = 7; for i in 5..2 { acc = 1 }; acc }"),
        Primitive::Number(7)
    );
}

#[test]
fn array_loop_binds_each_item_in_order() {
    assert_eq!(
        value_of("func main() = { let acc = 0; for x in [3, 1, 2] { acc = acc * 10 + x }; acc }"),
        Primitive::Number(312)
    );
}

#[test]
fn loop_variable_is_gone_after_the_loop() {
    assert_eq!(
        error_of("func main() = { for i in 0..2 { i }; i }"),
        RuntimeError::UndefinedVariable
    );
}

#[test]
fn loop_over_what_is_neither_array_nor_range_fails() {
    assert_eq!(error_of("func main() = { for i in 3 { i }; 0 }"), RuntimeError::TypeError);
}

#[test]
fn loop_stops_at_the_first_error() {
    assert_eq!(
        error_of("func main() = { for i in 0..3 { 1 / (1 - i) }; 0 }"),
        RuntimeError::DivideByZero
    );
}

#[test]
fn top_level_loop_runs_before_main() {
    assert_eq!(
        value_of("let total = 0 for i in 1..5 { total = total + i } func main() = total"),
        Primitive::Number(10)
    );
}

#[test]
fn division_rounds_toward_zero() {
    assert_eq!(value_of("func main() = 5 / 2"), Primitive::Number(2));
    assert_eq!(value_of("func main() = -5 / 2"), Primitive::Number(-2));
    assert_eq!(value_of("func main() = 5 / -2"), Primitive::Number(-2));
    assert_eq!(value_of("func main() = -5 / -2"), Primitive::Number(2));
    assert_eq!(value_of("func main() = 0 / 5"), Primitive::Number(0));
}

#[test]
fn remainder_has_the_sign_of_the_dividend() {
    assert_eq!(value_of("func main() = 5 % 2"), Primitive::Number(1));
    assert_eq!(value_of("func main() = -5 % 2"), Primitive::Number(-1));
    assert_eq!(value_of("func main() = 5 % -2"), Primitive::Number(1));
    assert_eq!(value_of("func main() = -5 % -2"), Primitive::Number(-1));
}

#[test]
fn division_by_zero_fails() {
    assert_eq!(error_of("func main() = 5 / 0"), RuntimeError::DivideByZero);
    assert_eq!(error_of("func main() = 5 % 0"), RuntimeError::DivideByZero);
    assert_eq!(error_of("func main() = 0 / 0"), RuntimeError::DivideByZero);
}

#[test]
fn arithmetic_wraps_around_in_32_bits() {
    assert_eq!(
        value_of("func main() = 2147483647 + 1"),
        Primitive::Number(i32::MIN)
    );
    assert_eq!(
        value_of("func main() = -2147483647 - 2"),
        Primitive::Number(i32::MAX)
    );
    assert_eq!(
        value_of("func main() = 65536 * 65536"),
        Primitive::Number(0)
    );
    assert_eq!(
        value_of("func main() = 65537 * 65537"),
        Primitive::Number(131073)
    );
    assert_eq!(
        value_of("func main() = (-2147483647 - 1) / -1"),
        Primitive::Number(i32::MIN)
    );
    assert_eq!(
        value_of("func main() = (-2147483647 - 1) % -1"),
        Primitive::Number(0)
    );
    assert_eq!(
        value_of("func main() = -(-2147483647 - 1)"),
        Primitive::Number(i32::MIN)
    );
}

#[test]
fn arithmetic_on_what_is_no_number_fails() {
    assert_eq!(error_of("func main() = 1 + true"), RuntimeError::TypeError);
    assert_eq!(error_of("func main() = \"a\" + \"b\""), RuntimeError::TypeError);
    assert_eq!(error_of("func main() = -true"), RuntimeError::TypeError);
    assert_eq!(error_of("func main() = 1..true"), RuntimeError::TypeError);
}

#[test]
fn equality_is_for_two_numbers_or_two_booleans() {
    assert_eq!(value_of("func main() = 3 == 3"), Primitive::Bool(true));
    assert_eq!(value_of("func main() = 3 == 4"), Primitive::Bool(false));
    assert_eq!(value_of("func main() = true == true"), Primitive::Bool(true));
    assert_eq!(error_of("func main() = 1 == true"), RuntimeError::TypeError);
    assert_eq!(error_of("func main() = \"a\" == \"a\""), RuntimeError::TypeError);
    assert_eq!(error_of("func main() = [1] == [1]"), RuntimeError::TypeError);
    assert_eq!(error_of("func main() = none == none"), RuntimeError::TypeError);
}

#[test]
fn indexing_an_array() {
    assert_eq!(value_of("func main() = [10,20,30][1]"), Primitive::Number(20));
    assert_eq!(value_of("func main() = [10,20,30][0]"), Primitive::Number(10));
    assert_eq!(value_of("func main() = [10,20,30][2]"), Primitive::Number(30));
}

#[test]
fn index_out_of_bounds_fails() {
    assert_eq!(error_of("func main() = [10,20,30][5]"), RuntimeError::IndexOutOfBounds);
    assert_eq!(error_of("func main() = [10,20,30][3]"), RuntimeError::IndexOutOfBounds);
    assert_eq!(error_of("func main() = [10,20,30][-1]"), RuntimeError::IndexOutOfBounds);
    assert_eq!(error_of("func main() = [][0]"), RuntimeError::IndexOutOfBounds);
}

#[test]
fn indexing_with_or_into_the_wrong_kind_fails() {
    assert_eq!(error_of("func main() = [1][true]"), RuntimeError::TypeError);
    assert_eq!(error_of("func main() = 5[0]"), RuntimeError::TypeError);
}

#[test]
fn index_is_not_evaluated_where_the_operand_is_no_array() {
    // The index would fail with another error if it were evaluated.
    assert_eq!(error_of("func main() = 5[1 / 0]"), RuntimeError::TypeError);
}

#[test]
fn postfix_operators_chain() {
    let source = "func pick() = [[1, 2], [3, 4]]
        func adder() = [add]
        func add(a, b) = a + b
        func main() = pick()[1][0] + adder()[0](10, 20)";
    assert_eq!(value_of(source), Primitive::Number(33));
}

#[test]
fn if_chooses_a_branch() {
    assert_eq!(value_of("func main() = if true { 1 } else { 2 }"), Primitive::Number(1));
    assert_eq!(value_of("func main() = if 1 == 2 { 1 } else { 2 }"), Primitive::Number(2));
}

#[test]
fn if_without_else_yields_nothing_when_false() {
    assert_eq!(value_of("func main() = if false { 1 }"), Primitive::Nothing);
    assert_eq!(value_of("func main() = if true { 1 }"), Primitive::Number(1));
}

#[test]
fn if_on_what_is_no_boolean_fails() {
    assert_eq!(error_of("func main() = if 1 { 2 }"), RuntimeError::TypeError);
}

#[test]
fn if_evaluates_only_the_chosen_branch() {
    assert_eq!(value_of("func main() = if true { 1 } else { 1 / 0 }"), Primitive::Number(1));
}

#[test]
fn block_without_tail_yields_nothing() {
    assert_eq!(value_of("func main() = { }"), Primitive::Nothing);
    assert_eq!(value_of("func main() = { let x = 1; }"), Primitive::Nothing);
    assert_eq!(value_of("func main() = none"), Primitive::Nothing);
}

#[test]
fn literals_evaluate_to_themselves() {
    assert_eq!(value_of("func main() = 42"), Primitive::Number(42));
    assert_eq!(value_of("func main() = true"), Primitive::Bool(true));
    assert_eq!(value_of("func main() = false"), Primitive::Bool(false));
    assert_eq!(
        value_of("func main() = \"h\u{e9}llo, w\u{f6}rld\""),
        Primitive::String("h\u{e9}llo, w\u{f6}rld".to_string())
    );
    assert_eq!(value_of("func main() = \"\""), Primitive::String(String::new()));
    assert_eq!(
        value_of("func main() = [1, true, [2]]"),
        Primitive::Array(vec![
            Primitive::Number(1),
            Primitive::Bool(true),
            Primitive::Array(vec![Primitive::Number(2)]),
        ])
    );
    assert_eq!(value_of("func main() = []"), Primitive::Array(vec![]));
}

#[test]
fn array_items_are_evaluated_from_left_to_right() {
    assert_eq!(
        value_of("let n = 0 func next() = { n = n + 1; n } func main() = [next(), next(), next()]"),
        Primitive::Array(vec![
            Primitive::Number(1),
            Primitive::Number(2),
            Primitive::Number(3),
        ])
    );
}

#[test]
fn left_operand_is_evaluated_before_the_right() {
    assert_eq!(
        value_of("let n = 0 func next() = { n = n + 1; n } func main() = next() * 10 + next()"),
        Primitive::Number(12)
    );
    // The left operand's error comes first.
    assert_eq!(error_of("func main() = missing + 1 / 0"), RuntimeError::UndefinedVariable);
    assert_eq!(error_of("func main() = 1 / 0 + missing"), RuntimeError::DivideByZero);
}

#[test]
fn arrays_are_copied_on_read() {
    let source = "func main() = { let a = [1, 2]; let b = a; a = [9]; b }";
    assert_eq!(
        value_of(source),
        Primitive::Array(vec![Primitive::Number(1), Primitive::Number(2)])
    );
}

#[test]
fn recursion_computes_a_factorial() {
    let source = "func fact(n) = if n == 0 { 1 } else { n * fact(n - 1) }
        func main() = fact(10)";
    assert_eq!(value_of(source), Primitive::Number(3628800));
}

#[test]
fn recursion_without_end_is_stopped() {
    assert_eq!(
        error_of("func f() = f() func main() = f()"),
        RuntimeError::ResourceExhausted
    );
    assert_eq!(
        error_of("func f(n) = 1 + f(n + 1) func main() = f(0)"),
        RuntimeError::ResourceExhausted
    );
}

#[test]
fn the_budget_counts_nested_evaluations() {
    let program = parse("func main() = 1 + 2").unwrap();
    // The call, its body and an operand nest three deep.
    assert_eq!(eval_with_limit(&program, 3), Ok(Primitive::Number(3)));
    assert_eq!(eval_with_limit(&program, 2), Err(RuntimeError::ResourceExhausted));
    assert_eq!(eval_with_limit(&program, 0), Err(RuntimeError::ResourceExhausted));
    assert_eq!(eval(program), Ok(Primitive::Number(3)));
    assert_eq!(DEFAULT_DEPTH, 512);
}

#[test]
fn function_value_keeps_its_parameters_and_its_body() {
    let program = parse("func f(a, b) = a func main() = f").unwrap();
    match eval(program) {
        Ok(Primitive::Function { args_name, code }) => {
            let names: Vec<String> = args_name.into_iter().map(|ident| ident.0).collect();
            assert_eq!(names, vec!["a".to_string(), "b".to_string()]);
            assert_eq!(code, parse_expression("a"));
        }
        other => panic!("{:?}", other),
    }
}

fn parse_expression(source: &str) -> exp_lang::ast::Expr {
    let mut program = parse(source).unwrap();
    match program.statements.pop() {
        Some(exp_lang::ast::Statement::Expr(expr)) => expr,
        other => panic!("{:?}", other),
    }
}

#[test]
fn running_twice_gives_the_same() {
    let sources = [
        "func main() = { let x = 2; let y = 3; x + y }",
        "func main() = 1 / 0",
        "func main() = (",
        "func f() = f() func main() = f()",
    ];
    for source in sources {
        assert_eq!(run(source.to_string()), run(source.to_string()));
    }
}

#[test]
fn parse_failure_is_reported_by_run() {
    match run("func main() = (1".to_string()) {
        Err(RunError::Parse(e)) => {
            assert_eq!(e.position, 16);
            assert_eq!(e.expected, exp_lang::parser::Expected::CloseParen);
        }
        other => panic!("{:?}", other),
    }
}

#[test]
fn errors_have_a_message() {
    assert_eq!(RuntimeError::DivideByZero.message(), "division by zero");
    assert_eq!(RuntimeError::UndefinedVariable.message(), "undefined variable");
    assert_eq!(RuntimeError::IndexOutOfBounds.message(), "index out of bounds");
    assert_eq!(RuntimeError::ArityError.message(), "wrong number of arguments");
    assert_eq!(
        RuntimeError::TypeError.message(),
        "type error: a value of another kind was needed"
    );
    assert_eq!(
        RuntimeError::AssignTypeMismatch.message(),
        "assignment would change the kind of the variable"
    );
    assert_eq!(RuntimeError::ResourceExhausted.message(), "evaluation nests too deeply");
    assert_eq!(
        RunError::Runtime(RuntimeError::DivideByZero).message(),
        "division by zero"
    );
    match run("let".to_string()) {
        Err(e) => assert_eq!(e.message(), "expected a name"),
        other => panic!("{:?}", other),
    }
}

#[test]
fn recursion_through_loops_and_blocks_is_stopped() {
    assert_eq!(
        error_of("func f(n) = { for i in 0..1 { { [f(n + 1)][0] } }; 0 } func main() = f(0)"),
        RuntimeError::ResourceExhausted
    );
    assert_eq!(
        error_of("func f(n) = if true { -f(n)[0](f(n)) } func main() = f(0)"),
        RuntimeError::ResourceExhausted
    );
}

#[test]
fn loops_do_not_use_up_the_budget() {
    assert_eq!(
        value_of("func main() = { let n = 0; for i in 0..100000 { n = n + 1 }; n }"),
        Primitive::Number(100000)
    );
}

#[test]
fn moderately_deep_recursion_fits_the_default_budget() {
    let source = "func sum(n) = if n == 0 { 0 } else { n + sum(n - 1) }
        func main() = sum(100)";
    assert_eq!(value_of(source), Primitive::Number(5050));
}
