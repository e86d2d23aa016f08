use mon_gen::build::compiler::{compile, compile_checked, Token};

#[test]
fn compile_single_call() {
    assert_eq!(
        compile("damage"),
        Some("damage(effects, command, party, state, rng)".to_string())
    );
}

#[test]
fn compile_chain() {
    assert_eq!(
        compile("a + b"),
        Some("a(effects, command, party, state, rng); b(effects, command, party, state, rng)".to_string())
    );
}

#[test]
fn compile_closure_argument() {
    assert_eq!(
        compile("miss_or(damage)"),
        Some(
            "miss_or(effects, command, party, state, rng, |effects, command, party, state, rng| \
             {damage(effects, command, party, state, rng)})"
                .to_string()
        )
    );
}

#[test]
fn compile_numbers_and_paths() {
    assert_eq!(
        compile("f(10, x.y, -3)"),
        Some("f(effects, command, party, state, rng, 10, x::y, -3)".to_string())
    );
    assert_eq!(
        compile("modifier::apply(1)"),
        Some("modifier::apply(effects, command, party, state, rng, 1)".to_string())
    );
}

#[test]
fn compile_empty_arguments() {
    assert_eq!(compile("f()"), Some("f(effects, command, party, state, rng, )".to_string()));
}

#[test]
fn compile_errors() {
    assert_eq!(compile(""), None);
    assert_eq!(compile("a b"), None);
    assert_eq!(compile("f(5"), None);
    assert_eq!(compile("f(+)"), None);
    assert_eq!(compile("f(1 2)"), None);

    let e = compile_checked("").unwrap_err();
    assert_eq!(e.message, "Expected symbol `Identifier`.");
    assert_eq!(e.token, None);

    let e = compile_checked("a b").unwrap_err();
    assert_eq!(e.message, "Expected token '+'");
    let t = e.token.unwrap();
    assert_eq!((t.token, t.begin, t.end), (Token::Identifier, 2, 3));

    let e = compile_checked("f(5").unwrap_err();
    assert_eq!(e.message, "Expected symbol `ParanR`.");
    assert_eq!(e.token, None);

    let e = compile_checked("f(+)").unwrap_err();
    assert_eq!(e.message, "Expected argument (digit, closure or end paranthesis).");
    assert_eq!(e.token.unwrap().token, Token::Plus);

    let e = compile_checked("f(1 2)").unwrap_err();
    assert_eq!(e.message, "Expected comma or end paranthesis.");
    assert_eq!(e.token.unwrap().token, Token::Digit);
}

#[test]
fn compile_error_report() {
    let e = compile_checked("a b").unwrap_err();
    assert_eq!(
        e.report("a b"),
        "\na b\n  ^-\n  Expected token '+'\n  Found symbol `Identifier`.\n\n"
    );
    let source = "x +\n  y z";
    let e = compile_checked(source).unwrap_err();
    assert_eq!(
        e.report(source),
        "\nx +\n  y z\n    ^-\n    Expected token '+'\n    Found symbol `Identifier`.\n\n"
    );
    let source = "a b\nc";
    let e = compile_checked(source).unwrap_err();
    assert_eq!(
        e.report(source),
        "\na b\n  ^-\n  Expected token '+'\n  Found symbol `Identifier`.\n\nc\n"
    );
}
