use dora::semck::check_program;

fn ok(code: &str) {
    let diag = check_program(code);
    assert!(diag.is_empty(), "unexpected errors: {:?}", diag);
}

fn err_count(code: &str) -> usize {
    check_program(code).len()
}

#[test]
fn builtin_functions() {
    ok("fun f() { assert(true); }");
    ok("fun f() { print(\"test\"); }");
    ok("fun f() { println(\"test\"); }");
}

#[test]
fn struct_field() {
    ok("struct Foo { a: Int }");
    ok("struct Foo { a: Int, b: Int }");
    ok("struct Foo { a: Int } struct Bar { a: Int }");
    ok("struct Foo { a: Int, bar: Bar } struct Bar { a: Int }");
}

#[test]
fn type_method_len() {
    ok("fun f(a: Str) -> int { return a.len(); }");
    ok("fun f(a: Str) -> int { return \"abc\".len(); }");
}

#[test]
fn type_variable() {
    ok("fun f(a: int) { let b: int = a; }");
}

#[test]
fn type_ident_in_function_params() {
    ok("fun f(a: int) {}\nfun g() { let a = 1; f(a); }");
}

#[test]
fn type_recursive_function_call() {
    ok("fun f(a: int) { f(a); }");
}

#[test]
fn type_catch_variable() {
    ok("fun f() { do {} catch a: Str { print(a); } }");
    ok("fun f() { var x = 0; do {} catch a: IntArray { x=a.len(); } }");
}

#[test]
fn var_without_initialization() {
    ok("fun f() { var x: int; }");
}

#[test]
fn reassign_var() {
    ok("fun f() { var a=1; a=2; }");
}

#[test]
fn check_cmp_is() {
    ok("fun f(x: Str) {
            let a = nil === x;
            let b = x === nil;
            let c = nil === nil;
        }");
}

#[test]
fn try_fct() {
    ok("fun one() throws -> int { return 1; } fun me() -> int { return try one(); }");
}

#[test]
fn long_operations() {
    ok("fun f(a: long, b: long) -> long { return a + b; }");
}

#[test]
fn reassign_let_rejected() {
    assert_eq!(err_count("fun f() { let a=1; a=2; }"), 1);
}

#[test]
fn let_needs_initialization() {
    assert_eq!(err_count("fun f() { let x: int; }"), 1);
}

#[test]
fn var_needs_type_or_value() {
    assert_eq!(err_count("fun f() { var x; }"), 1);
}

#[test]
fn unknown_identifier_rejected() {
    assert_eq!(err_count("fun f() { x; }"), 1);
}

#[test]
fn unknown_struct_field_type_rejected() {
    assert_eq!(err_count("struct Bar { a: Unknown }"), 1);
}

#[test]
fn shadowed_struct_field_rejected() {
    assert_eq!(err_count("struct Foo { a: Int, a: Int }"), 1);
}

#[test]
fn wrong_return_type_rejected() {
    assert_eq!(err_count("fun f() -> int { return \"abc\"; }"), 1);
}

#[test]
fn throwing_call_needs_try() {
    assert_eq!(
        err_count("fun one() throws -> int { return 1; } fun me() -> int { return one(); }"),
        1
    );
}

#[test]
fn try_of_non_throwing_rejected() {
    assert_eq!(
        err_count("fun one() -> int { return 1; } fun me() -> int { return try one(); }"),
        1
    );
}

#[test]
fn mixed_int_long_addition_rejected() {
    assert_eq!(err_count("fun f(a: int, b: long) { a + b; }"), 1);
}

#[test]
fn wrong_argument_type_rejected() {
    assert_eq!(err_count("fun f(a: int) {}\nfun g() { f(true); }"), 1);
}
