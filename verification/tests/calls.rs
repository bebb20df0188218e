use bg3_debug_tool::call_parser::{parse_call, CallSyntaxError, ParsedCall, ParsedValue};

fn call(text: &str) -> ParsedCall {
    match parse_call(text) {
        Ok(c) => c,
        Err(e) => panic!("{text:?} was refused: {e:?}"),
    }
}

fn is_int(v: &ParsedValue, n: i64) -> bool {
    matches!(v, ParsedValue::Int(x) if *x == n)
}

fn is_float(v: &ParsedValue, t: &str) -> bool {
    matches!(v, ParsedValue::Float(x) if x == t)
}

fn is_text(v: &ParsedValue, t: &str) -> bool {
    matches!(v, ParsedValue::Text(x) if x == t)
}

#[test]
fn parses_every_kind_of_value() {
    let c = call("Foo(1, 0x1F, 2.5, \"a\\nb\", None,)");
    assert_eq!(c.ident, "Foo");
    assert_eq!(c.args.len(), 5);
    assert!(is_int(&c.args[0], 1));
    assert!(is_int(&c.args[1], 31));
    assert!(is_float(&c.args[2], "2.5"));
    assert!(is_text(&c.args[3], "a\nb"));
    assert!(matches!(c.args[4], ParsedValue::Nil));
}

#[test]
fn parses_a_call_without_arguments() {
    let c = call("  GetHostCharacter ( )  ");
    assert_eq!(c.ident, "GetHostCharacter");
    assert!(c.args.is_empty());
}

#[test]
fn parses_negative_numbers() {
    let c = call("Foo(-1, - 0x10, -2.5e+3, -0b11)");
    assert_eq!(c.args.len(), 4);
    assert!(is_int(&c.args[0], -1));
    assert!(is_int(&c.args[1], -16));
    assert!(is_float(&c.args[2], "-2.5e3"));
    assert!(is_int(&c.args[3], -3));
}

#[test]
fn integer_limits() {
    assert!(is_int(&call("Foo(9223372036854775807)").args[0], i64::MAX));
    assert!(is_int(&call("Foo(-9223372036854775808)").args[0], i64::MIN));
    assert_eq!(parse_call("Foo(9223372036854775808)").err(), Some(CallSyntaxError::NumberTooLarge));
    assert_eq!(parse_call("Foo(-9223372036854775809)").err(), Some(CallSyntaxError::NumberTooSmall));
    assert_eq!(parse_call("Foo(0xFFFFFFFFFFFFFFFFFF)").err(), Some(CallSyntaxError::NumberTooLarge));
}

#[test]
fn underscores_and_suffixes() {
    let c = call("Foo(1_000u32, 1.5f32, 0o17, 2E1_0, 1e5)");
    assert!(is_int(&c.args[0], 1000));
    assert!(is_float(&c.args[1], "1.5"));
    assert!(is_int(&c.args[2], 15));
    assert!(is_float(&c.args[3], "2e10"));
    assert!(is_float(&c.args[4], "1e5"));
}

#[test]
fn string_escapes() {
    let c = call(r#"Foo("\u{48}i", "\x41\t\"\\", "line\
        next")"#);
    assert!(is_text(&c.args[0], "Hi"));
    assert!(is_text(&c.args[1], "A\t\"\\"));
    assert!(is_text(&c.args[2], "linenext"));
}

#[test]
fn comments_are_white_space() {
    let c = call("/* a /* nested */ comment */ Foo( 1 // to the end\n , 2 )");
    assert_eq!(c.ident, "Foo");
    assert!(is_int(&c.args[0], 1));
    assert!(is_int(&c.args[1], 2));
}

#[test]
fn raw_strings_and_raw_names() {
    let c = call(r###"r#fn(r"a\b", r#"say "hi""#, r"")"###);
    assert_eq!(c.ident, "r#fn");
    assert!(is_text(&c.args[0], "a\\b"));
    assert!(is_text(&c.args[1], "say \"hi\""));
    assert!(is_text(&c.args[2], ""));
    for text in ["r#self()", "r#_()", "Foo(r\"a)", "Foo(r#\"x\")", "Foo(r\"\0\")"] {
        assert_eq!(parse_call(text).err(), Some(CallSyntaxError::Malformed), "{text:?}");
    }
    assert_eq!(
        parse_call("Foo(r#None)").err(),
        Some(CallSyntaxError::UnknownArgumentType("r#None".to_string()))
    );
}

#[test]
fn unicode_identifiers() {
    let c = call("Fonction_é(1é, None)");
    assert_eq!(c.ident, "Fonction_é");
    assert!(is_int(&c.args[0], 1));
    assert!(matches!(c.args[1], ParsedValue::Nil));
    assert_eq!(call("日本()").ident, "日本");
    assert_eq!(
        parse_call("Foo(Noneé)").err(),
        Some(CallSyntaxError::UnknownArgumentType("Noneé".to_string()))
    );
    assert_eq!(parse_call("1Foo()").err(), Some(CallSyntaxError::Malformed));
}

#[test]
fn refuses_what_is_not_a_call() {
    for text in [
        "",
        "Foo",
        "fn()",
        "Foo(\"\\0\")",
        "Foo(1 2)",
        "Foo(1) x",
        "Foo(,)",
        "Foo(--1)",
        "Foo(-\"a\")",
        "Foo(1.e5)",
        "Foo(/*ERROR*/)",
        "Foo(\"open)",
        "Foo(1",
        "/// doc\nFoo()",
        "Foo(if)",
        "Foo('ab')",
        "Foo(br\"x\")",
    ] {
        assert_eq!(parse_call(text).err(), Some(CallSyntaxError::Malformed), "{text:?}");
    }
}

#[test]
fn refusals_name_the_argument_at_fault() {
    let lit = |d: &str| Some(CallSyntaxError::UnexpectedLiteral(d.to_string()));
    let word = |w: &str| Some(CallSyntaxError::UnknownArgumentType(w.to_string()));
    assert_eq!(parse_call("Foo(true)").err(), lit("Lit::Bool { value: true }"));
    assert_eq!(parse_call("Foo(1, false)").err(), lit("Lit::Bool { value: false }"));
    assert_eq!(parse_call("Foo('a')").err(), lit("Lit::Char { token: 'a' }"));
    assert_eq!(parse_call("Foo('\\n')").err(), lit("Lit::Char { token: '\\n' }"));
    assert_eq!(parse_call("Foo(b'x')").err(), lit("Lit::Byte { token: b'x' }"));
    assert_eq!(parse_call("Foo(b\"xy\")").err(), lit("Lit::ByteStr { token: b\"xy\" }"));
    assert_eq!(parse_call("Foo(c\"xy\")").err(), lit("Lit::CStr { token: c\"xy\" }"));
    assert_eq!(parse_call("Foo(Some)").err(), word("Some"));
    assert_eq!(parse_call("Foo(1, b)").err(), word("b"));
    assert_eq!(parse_call("Foo(x, true)").err(), word("x"));
}

#[test]
fn refusal_messages() {
    let m = |t: &str| parse_call(t).unwrap_err().message();
    assert_eq!(m("Foo(Some)"), "unknown Osiris argument type 'Some'");
    assert_eq!(m("Foo('a')"), "unexpected literal 'Lit::Char { token: 'a' }'");
    assert_eq!(m("Foo(true)"), "unexpected literal 'Lit::Bool { value: true }'");
    assert_eq!(m("Foo(99999999999999999999)"), "number too large to fit in target type");
    assert_eq!(m("Foo(-99999999999999999999)"), "number too small to fit in target type");
    assert_eq!(m("Foo("), "expected a function call: Name(value, ...)");
}
