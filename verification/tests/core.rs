use expr_core::expression::{Context, Expr, ResolveError};
use expr_core::function::{ArgumentList, CompileError, FunctionCompileContext};
use expr_core::parse_go_timestamp::{compile_call, first_success, ParseGoTimestamp};
use expr_core::types::{TypeDef, TypeState};
use expr_core::value::{Timestamp, Value};
use expr_core::kind;

fn bytes_lit(s: &str) -> Expr {
    Expr::Literal(Value::Bytes(s.as_bytes().to_vec()))
}

fn formats_lit(formats: &[&str]) -> Expr {
    Expr::Array(formats.iter().map(|f| bytes_lit(f)).collect())
}

fn args_for(value: Expr, formats: Expr, timezone: Expr) -> ArgumentList {
    let mut args = ArgumentList::new();
    args.bind("value".to_string(), value);
    args.bind("formats".to_string(), formats);
    args.bind("timezone".to_string(), timezone);
    args
}

fn compile(value: Expr, formats: Expr, timezone: Expr) -> Result<Expr, CompileError> {
    let state = TypeState::new();
    let mut ctx = FunctionCompileContext {};
    compile_call(
        "parse_go_timestamp",
        &state,
        &mut ctx,
        args_for(value, formats, timezone),
    )
}

fn resolve_ok(node: &Expr) -> Value {
    node.resolve(&Context::new()).expect("resolution should succeed")
}

fn timestamp_of(v: Value) -> Timestamp {
    match v {
        Value::Timestamp(t) => t,
        other => panic!("expected a timestamp, got {:?}", other),
    }
}

#[test]
fn fixture_utc() {
    // The Go reference layout spells a numeric colon zone "-07:00"; the value
    // may carry either sign, so "+00:00" parses against it.
    let node = compile(
        bytes_lit("11-Feb-2021 16:00 +00:00"),
        formats_lit(&["02-Jan-2006 15:04 -07:00"]),
        bytes_lit("UTC"),
    )
    .expect("compile should succeed");
    let t = timestamp_of(resolve_ok(&node));
    assert_eq!(t, Timestamp { secs: 1613059200, nanos: 0 });
}

#[test]
fn fixture_europe_paris() {
    let node = compile(
        bytes_lit("16/10/2019 12:00:00"),
        formats_lit(&["02/01/2006 15:04:05"]),
        bytes_lit("Europe/Paris"),
    )
    .expect("compile should succeed");
    let t = timestamp_of(resolve_ok(&node));
    assert_eq!(t, Timestamp { secs: 1571220000, nanos: 0 });
}

#[test]
fn format_precedence_first_match_wins() {
    // Both layouts match the text; the day-month reading comes first and wins.
    let node = compile(
        bytes_lit("03-04-2021 10:00"),
        formats_lit(&["02-01-2006 15:04", "01-02-2006 15:04"]),
        bytes_lit("UTC"),
    )
    .expect("compile should succeed");
    let t = timestamp_of(resolve_ok(&node));
    assert_eq!(t.secs, 1617444000); // 2021-04-03T10:00:00Z, not 2021-03-04
}

#[test]
fn format_precedence_second_when_first_fails() {
    let node = compile(
        bytes_lit("2021-04-03 10:00"),
        formats_lit(&["02-Jan-2006", "2006-01-02 15:04"]),
        bytes_lit("UTC"),
    )
    .expect("compile should succeed");
    let t = timestamp_of(resolve_ok(&node));
    assert_eq!(t.secs, 1617444000);
}

#[test]
fn identity_passthrough() {
    let ts = Timestamp { secs: 123456, nanos: 789 };
    let node = compile(
        Expr::Literal(Value::Timestamp(ts)),
        formats_lit(&["02-Jan-2006"]),
        bytes_lit("UTC"),
    )
    .expect("compile should succeed");
    assert_eq!(timestamp_of(resolve_ok(&node)), ts);
}

#[test]
fn exhaustive_mismatch_reports_uniform_error() {
    let node = compile(
        bytes_lit("definitely not a date"),
        formats_lit(&["02-Jan-2006 15:04 +07:00", "2006-01-02"]),
        bytes_lit("UTC"),
    )
    .expect("compile should succeed");
    let err = node.resolve(&Context::new()).expect_err("no layout matches");
    assert_eq!(err, ResolveError::UnableToConvert);
    assert_eq!(err.message(), "unable to convert value to timestamp");
}

#[test]
fn empty_format_list_always_fails_for_text() {
    let node = compile(
        bytes_lit("11-Feb-2021 16:00 +00:00"),
        formats_lit(&[]),
        bytes_lit("UTC"),
    )
    .expect("compile should succeed");
    let err = node.resolve(&Context::new()).expect_err("nothing can match");
    assert_eq!(err, ResolveError::UnableToConvert);
}

#[test]
fn multibyte_text_fails_instead_of_panicking() {
    // A euro sign under a two-digit numeric field would make the parser slice
    // mid-character; the attempt must count as a mismatch, not crash.
    let node = compile(
        Expr::Literal(Value::Bytes("\u{20ac}1".as_bytes().to_vec())),
        formats_lit(&["06"]),
        bytes_lit("UTC"),
    )
    .expect("compile should succeed");
    let err = node.resolve(&Context::new()).expect_err("non-ASCII text cannot match");
    assert_eq!(err, ResolveError::UnableToConvert);
}

#[test]
fn invalid_utf8_text_fails_instead_of_panicking() {
    // Invalid bytes decode lossily to U+FFFD, a three-byte character.
    let node = compile(
        Expr::Literal(Value::Bytes(vec![0xFF, 0x31, 0x32])),
        formats_lit(&["06"]),
        bytes_lit("UTC"),
    )
    .expect("compile should succeed");
    let err = node.resolve(&Context::new()).expect_err("lossy text cannot match");
    assert_eq!(err, ResolveError::UnableToConvert);
}

#[test]
fn multibyte_layout_fails_instead_of_panicking() {
    let node = compile(
        bytes_lit("2021"),
        formats_lit(&["2006\u{20ac}", "2006"]),
        bytes_lit("UTC"),
    )
    .expect("compile should succeed");
    // The non-ASCII layout is a failed attempt; the later ASCII one still wins.
    let t = timestamp_of(resolve_ok(&node));
    assert_eq!(t.secs, 1609459200); // 2021-01-01T00:00:00Z
}

#[test]
fn unsupported_kind_reports_same_error() {
    // The value is dynamic, so compilation accepts it; at runtime it is a
    // boolean, which resolution rejects with the same uniform reason.
    let mut state = TypeState::new();
    state.bind(
        "flag".to_string(),
        TypeDef { kinds: kind::BYTES | kind::BOOLEAN, fallible: false },
    );
    let mut ctx = FunctionCompileContext {};
    let args = args_for(
        Expr::Variable("flag".to_string()),
        formats_lit(&["2006-01-02"]),
        bytes_lit("UTC"),
    );
    let node = compile_call("parse_go_timestamp", &state, &mut ctx, args)
        .expect("compile should succeed");
    let mut rt = Context::new();
    rt.bind("flag".to_string(), Value::Boolean(true));
    let err = node.resolve(&rt).expect_err("a boolean cannot convert");
    assert_eq!(err, ResolveError::UnableToConvert);
}

#[test]
fn dynamic_timezone_fails_at_compile_time() {
    let result = compile(
        bytes_lit("11-Feb-2021 16:00 +00:00"),
        formats_lit(&["02-Jan-2006 15:04 +07:00"]),
        Expr::Variable("tz_from_record".to_string()),
    );
    match result {
        Err(CompileError::ExpectedStaticExpression { keyword, .. }) => {
            assert_eq!(keyword, "timezone");
        }
        other => panic!("expected ExpectedStaticExpression, got {:?}", other),
    }
}

#[test]
fn dynamic_format_element_fails_at_compile_time() {
    let result = compile(
        bytes_lit("11-Feb-2021 16:00 +00:00"),
        Expr::Array(vec![bytes_lit("2006-01-02"), Expr::Variable("f".to_string())]),
        bytes_lit("UTC"),
    );
    match result {
        Err(CompileError::ExpectedStaticExpression { keyword, .. }) => {
            assert_eq!(keyword, "formats");
        }
        other => panic!("expected ExpectedStaticExpression, got {:?}", other),
    }
}

#[test]
fn non_string_format_element_is_rejected() {
    let result = compile(
        bytes_lit("11-Feb-2021 16:00 +00:00"),
        Expr::Array(vec![bytes_lit("2006"), Expr::Literal(Value::Integer(5))]),
        bytes_lit("UTC"),
    );
    match result {
        Err(CompileError::InvalidArgument { keyword, value, error }) => {
            assert_eq!(keyword, "formats");
            assert_eq!(value, "literal at index 1");
            assert_eq!(error, "go_timestamp formats should be a string array");
        }
        other => panic!("expected InvalidArgument, got {:?}", other),
    }
}

#[test]
fn yearday_layout_fails_instead_of_panicking() {
    // The parser's year-day digit scanner reads past a short digit run; the
    // layout is screened out and the attempt counts as a mismatch.
    let node = compile(
        bytes_lit("123"),
        formats_lit(&["002"]),
        bytes_lit("UTC"),
    )
    .expect("compile should succeed");
    let err = node.resolve(&Context::new()).expect_err("screened layout cannot match");
    assert_eq!(err, ResolveError::UnableToConvert);
}

#[test]
fn long_fraction_value_fails_instead_of_panicking() {
    // Ten fractional digits make the parser's scale count underflow; the
    // value is screened out and resolution errs.
    let node = compile(
        bytes_lit("15:04:05.1234567890"),
        formats_lit(&["15:04:05"]),
        bytes_lit("UTC"),
    )
    .expect("compile should succeed");
    let err = node.resolve(&Context::new()).expect_err("screened value cannot match");
    assert_eq!(err, ResolveError::UnableToConvert);
}

#[test]
fn long_fraction_layout_fails_instead_of_panicking() {
    let node = compile(
        bytes_lit("15:04:05"),
        formats_lit(&["15:04:05.0000000000"]),
        bytes_lit("UTC"),
    )
    .expect("compile should succeed");
    let err = node.resolve(&Context::new()).expect_err("screened layout cannot match");
    assert_eq!(err, ResolveError::UnableToConvert);
}

#[test]
fn empty_timezone_name_means_utc() {
    let node = compile(
        bytes_lit("11-Feb-2021 16:00 +00:00"),
        formats_lit(&["02-Jan-2006 15:04 -07:00"]),
        bytes_lit(""),
    )
    .expect("the empty name is documented to mean UTC");
    let t = timestamp_of(resolve_ok(&node));
    assert_eq!(t.secs, 1613059200);
}

#[test]
fn unknown_timezone_is_rejected_naming_the_keyword() {
    let result = compile(
        bytes_lit("11-Feb-2021 16:00 +00:00"),
        formats_lit(&["02-Jan-2006 15:04 +07:00"]),
        bytes_lit("Nowhere/Invalid"),
    );
    match result {
        Err(CompileError::InvalidArgument { keyword, error, .. }) => {
            assert_eq!(keyword, "timezone");
            assert_eq!(error, "go_timestamp timezone should be a legal timezone");
        }
        other => panic!("expected InvalidArgument, got {:?}", other),
    }
}

#[test]
fn non_string_timezone_is_rejected() {
    // Registry validation would already catch a statically integer timezone;
    // the compile step's own domain check is what is exercised here.
    let state = TypeState::new();
    let mut ctx = FunctionCompileContext {};
    let args = args_for(
        bytes_lit("11-Feb-2021 16:00 +00:00"),
        formats_lit(&["02-Jan-2006 15:04 -07:00"]),
        Expr::Literal(Value::Integer(3)),
    );
    let result = ParseGoTimestamp.compile(&state, &mut ctx, args);
    match result {
        Err(CompileError::InvalidArgument { keyword, error, .. }) => {
            assert_eq!(keyword, "timezone");
            assert_eq!(error, "go_timestamp timezone should be a string");
        }
        other => panic!("expected InvalidArgument, got {:?}", other),
    }
}

#[test]
fn non_array_formats_argument_is_rejected() {
    let result = compile(
        bytes_lit("11-Feb-2021 16:00 +00:00"),
        Expr::Variable("fs".to_string()),
        bytes_lit("UTC"),
    );
    match result {
        Err(CompileError::UnexpectedExpression { keyword }) => {
            assert_eq!(keyword, "formats");
        }
        other => panic!("expected UnexpectedExpression, got {:?}", other),
    }
}

#[test]
fn unknown_keyword_is_rejected() {
    let state = TypeState::new();
    let mut ctx = FunctionCompileContext {};
    let mut args = args_for(
        bytes_lit("x"),
        formats_lit(&["2006-01-02"]),
        bytes_lit("UTC"),
    );
    args.bind("surprise".to_string(), bytes_lit("y"));
    match compile_call("parse_go_timestamp", &state, &mut ctx, args) {
        Err(CompileError::UnknownKeyword { keyword }) => assert_eq!(keyword, "surprise"),
        other => panic!("expected UnknownKeyword, got {:?}", other),
    }
}

#[test]
fn missing_required_parameter_is_rejected() {
    let state = TypeState::new();
    let mut ctx = FunctionCompileContext {};
    let mut args = ArgumentList::new();
    args.bind("value".to_string(), bytes_lit("x"));
    args.bind("formats".to_string(), formats_lit(&["2006-01-02"]));
    match compile_call("parse_go_timestamp", &state, &mut ctx, args) {
        Err(CompileError::MissingRequired { keyword }) => assert_eq!(keyword, "timezone"),
        other => panic!("expected MissingRequired, got {:?}", other),
    }
}

#[test]
fn statically_wrong_kind_is_rejected() {
    let result = compile(
        Expr::Literal(Value::Boolean(true)),
        formats_lit(&["2006-01-02"]),
        bytes_lit("UTC"),
    );
    match result {
        Err(CompileError::KindMismatch { keyword }) => assert_eq!(keyword, "value"),
        other => panic!("expected KindMismatch, got {:?}", other),
    }
}

#[test]
fn unknown_function_is_rejected() {
    let state = TypeState::new();
    let mut ctx = FunctionCompileContext {};
    let args = args_for(bytes_lit("x"), formats_lit(&["f"]), bytes_lit("UTC"));
    match compile_call("parse_timestamp", &state, &mut ctx, args) {
        Err(CompileError::UnknownFunction { ident }) => assert_eq!(ident, "parse_timestamp"),
        other => panic!("expected UnknownFunction, got {:?}", other),
    }
}

#[test]
fn compiled_node_is_fallible_timestamp() {
    let node = compile(
        bytes_lit("11-Feb-2021 16:00 +00:00"),
        formats_lit(&["02-Jan-2006 15:04 +07:00"]),
        bytes_lit("UTC"),
    )
    .expect("compile should succeed");
    let td = node.type_def(&TypeState::new());
    assert_eq!(td, TypeDef { kinds: kind::TIMESTAMP, fallible: true });
}

#[test]
fn fallibility_propagates_to_enclosing_array() {
    let node = compile(
        bytes_lit("11-Feb-2021 16:00 +00:00"),
        formats_lit(&["02-Jan-2006 15:04 +07:00"]),
        bytes_lit("UTC"),
    )
    .expect("compile should succeed");
    let state = TypeState::new();
    let wrapped = Expr::Array(vec![Expr::Literal(Value::Integer(1)), node]);
    let td = wrapped.type_def(&state);
    assert_eq!(td.kinds, kind::ARRAY);
    assert!(td.fallible);
    let calm = Expr::Array(vec![Expr::Literal(Value::Integer(1))]);
    assert!(!calm.type_def(&state).fallible);
}

#[test]
fn first_success_picks_earliest() {
    let a = Timestamp { secs: 1, nanos: 0 };
    let b = Timestamp { secs: 2, nanos: 0 };
    assert_eq!(first_success(&vec![None, Some(a), Some(b)]), Some(a));
    assert_eq!(first_success(&vec![None, None]), None);
    assert_eq!(first_success(&vec![]), None);
}

#[test]
fn identifier_and_examples() {
    let f = ParseGoTimestamp;
    assert_eq!(f.identifier(), "parse_go_timestamp");
    let examples = f.examples();
    assert_eq!(examples.len(), 2);
    assert_eq!(examples[0].title, "valid");
    assert_eq!(
        examples[0].source,
        "parse_go_timestamp!(\"11-Feb-2021 16:00 +00:00\", format: \"02-Jan-2006 15:04 +07:00\")"
    );
    assert_eq!(examples[0].result, Ok("t'2021-02-11T16:00:00Z'"));
    assert_eq!(examples[1].title, "valid with timezone");
    assert_eq!(examples[1].result, Ok("t'2019-10-16T10:00:00Z'"));
}

#[test]
fn parameters_schema() {
    let params = ParseGoTimestamp.parameters();
    assert_eq!(params.len(), 3);
    assert_eq!(params[0].keyword, "value");
    assert_eq!(params[0].kind, kind::BYTES | kind::TIMESTAMP);
    assert!(params[0].required);
    assert_eq!(params[1].keyword, "formats");
    assert_eq!(params[1].kind, kind::ARRAY);
    assert_eq!(params[2].keyword, "timezone");
    assert_eq!(params[2].kind, kind::BYTES);
}

#[test]
fn constant_folding() {
    let state = TypeState::new();
    let arr = Expr::Array(vec![
        Expr::Literal(Value::Integer(1)),
        Expr::Literal(Value::Null),
    ]);
    match arr.resolve_constant(&state) {
        Some(Value::Array(items)) => {
            assert_eq!(items, vec![Value::Integer(1), Value::Null]);
        }
        other => panic!("expected a folded array, got {:?}", other),
    }
    let dynamic = Expr::Array(vec![Expr::Variable("x".to_string())]);
    assert!(dynamic.resolve_constant(&state).is_none());
}

#[test]
fn literal_and_variable_resolution() {
    let mut rt = Context::new();
    rt.bind("msg".to_string(), Value::Bytes(b"hello".to_vec()));
    let lit = Expr::Literal(Value::Integer(9));
    assert_eq!(lit.resolve(&rt), Ok(Value::Integer(9)));
    let var = Expr::Variable("msg".to_string());
    assert_eq!(var.resolve(&rt), Ok(Value::Bytes(b"hello".to_vec())));
    let missing = Expr::Variable("absent".to_string());
    assert_eq!(missing.resolve(&rt), Ok(Value::Null));
}

#[test]
fn array_resolution_is_elementwise_in_order() {
    let mut rt = Context::new();
    rt.bind("x".to_string(), Value::Integer(7));
    let arr = Expr::Array(vec![
        Expr::Literal(Value::Bytes(b"a".to_vec())),
        Expr::Variable("x".to_string()),
        Expr::Variable("absent".to_string()),
    ]);
    assert_eq!(
        arr.resolve(&rt),
        Ok(Value::Array(vec![
            Value::Bytes(b"a".to_vec()),
            Value::Integer(7),
            Value::Null,
        ]))
    );
}

#[test]
fn deep_copy_preserves_structure() {
    let v = Value::Object(vec![
        ("k".to_string(), Value::Array(vec![Value::Integer(1), Value::Bytes(b"x".to_vec())])),
        ("t".to_string(), Value::Timestamp(Timestamp { secs: 5, nanos: 6 })),
    ]);
    assert_eq!(v.dup(), v);
}

#[test]
fn kind_flags_behave_as_sets() {
    assert_ne!(kind::BYTES & (kind::BYTES | kind::TIMESTAMP), 0);
    assert_eq!(kind::BOOLEAN & (kind::BYTES | kind::TIMESTAMP), 0);
    assert_ne!(kind::ANY & kind::REGEX, 0);
    let v = Value::Float(0x4045000000000000); // bit pattern of a double
    assert_eq!(v.kind(), kind::FLOAT);
    assert_eq!(Value::Null.kind(), kind::NULL);
}

#[test]
fn describe_names_the_shape() {
    assert_eq!(Expr::Variable("x".to_string()).describe(), "variable");
    assert_eq!(Expr::Array(vec![]).describe(), "array literal");
    assert_eq!(Expr::Literal(Value::Null).describe(), "literal");
}
