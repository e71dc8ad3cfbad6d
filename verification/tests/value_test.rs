// Values: coercion, display form, truthiness, equality; and the errors' text.
use luma::shared::error::LumaError;
use luma::shared::value::Value;

fn number(value: f64) -> Value {
    Value::Number(value.to_bits())
}

fn text(value: &str) -> Value {
    Value::String(value.to_string())
}

#[test]
fn truthiness_of_nil_and_false() {
    assert!(!Value::Nil.is_truthy());
    assert!(!Value::Boolean(false).is_truthy());
    assert!(Value::Boolean(true).is_truthy());
    assert!(number(0.0).is_truthy());
    assert!(text("").is_truthy());
}

#[test]
fn type_labels() {
    assert_eq!(number(1.0).type_label(), "number");
    assert_eq!(text("a").type_label(), "string");
    assert_eq!(Value::Boolean(true).type_label(), "boolean");
    assert_eq!(Value::Nil.type_label(), "nil");
}

#[test]
fn numeric_coercion() {
    assert_eq!(number(2.5).to_number(None), Ok(2.5f64.to_bits()));
    assert_eq!(Value::Boolean(true).to_number(None), Ok(1.0f64.to_bits()));
    assert_eq!(Value::Boolean(false).to_number(None), Ok(0.0f64.to_bits()));
    assert_eq!(Value::Nil.to_number(None), Err("Cannot convert nil to number".to_string()));
    assert_eq!(text("12").to_number(Some(12.0f64.to_bits())), Ok(12.0f64.to_bits()));
    assert_eq!(text("abc").to_number(None), Err("Cannot convert 'abc' to number".to_string()));
    assert!(text("12").needs_reading());
    assert!(!number(12.0).needs_reading());
}

#[test]
fn display_forms() {
    assert_eq!(number(123.0).to_string("unused"), "123");
    assert_eq!(number(-7.0).to_string(""), "-7");
    assert_eq!(number(0.0).to_string(""), "0");
    assert_eq!(number(-0.0).to_string(""), "0");
    assert_eq!(number(1e300).to_string(""), "9223372036854775807");
    assert_eq!(number(-1e300).to_string(""), "-9223372036854775808");
    assert_eq!(number(2.5).to_string("2.5"), "2.5");
    assert_eq!(number(f64::NAN).to_string("NaN"), "NaN");
    assert_eq!(text("hello").to_string(""), "hello");
    assert_eq!(Value::Boolean(true).to_string(""), "true");
    assert_eq!(Value::Boolean(false).to_string(""), "false");
    assert_eq!(Value::Nil.to_string(""), "nil");
    assert!(number(2.5).needs_writing());
    assert!(number(f64::INFINITY).needs_writing());
    assert!(!number(2.0).needs_writing());
    assert!(!text("2.5").needs_writing());
}

#[test]
fn display_forms_agree_with_the_cast_of_doubles() {
    for value in [0.0, 1.0, -1.0, 65536.0, 1e15, 1e18, 9.3e18, -9.3e18, 4503599627370497.0] {
        assert_eq!(number(value).to_string(""), format!("{}", value as i64));
    }
}

#[test]
fn equality_is_structural() {
    assert_eq!(number(1.0), number(1.0));
    assert_ne!(number(1.0), number(2.0));
    assert_eq!(number(0.0), number(-0.0));
    assert_ne!(number(f64::NAN), number(f64::NAN));
    assert_eq!(text("a"), text("a"));
    assert_ne!(text("a"), text("b"));
    assert_ne!(text("1"), number(1.0));
    assert_eq!(Value::Boolean(true), Value::Boolean(true));
    assert_ne!(Value::Boolean(true), Value::Boolean(false));
    assert_eq!(Value::Nil, Value::Nil);
    assert_ne!(Value::Nil, Value::Boolean(false));
    assert_eq!(text("copy").clone(), text("copy"));
    assert_eq!(number(3.0).clone(), number(3.0));
}

#[test]
fn errors_are_shown_with_kind_and_line() {
    assert_eq!(LumaError::lex_error("bad".to_string(), 3).to_string(), "Lexical error at line 3: bad");
    assert_eq!(LumaError::parse_error("bad".to_string(), 0).to_string(), "Parse error at line 0: bad");
    assert_eq!(
        LumaError::compilation_error("bad".to_string(), 12).to_string(),
        "Compile error at line 12: bad"
    );
    assert_eq!(LumaError::RuntimeError("bad".to_string()).to_string(), "Runtime error: bad");
    assert_eq!(LumaError::StackError("bad".to_string()).to_string(), "Stack error: bad");
    assert_eq!(LumaError::JitError("bad".to_string()).to_string(), "JIT error: bad");
    assert_eq!(LumaError::IoError("bad".to_string()).to_string(), "I/O error: bad");
    assert_eq!(LumaError::SerializationError("bad".to_string()).to_string(), "Serialization error: bad");
}

#[test]
fn messages_become_runtime_errors() {
    assert!(matches!(LumaError::from("oops".to_string()), LumaError::RuntimeError(message) if message == "oops"));
    assert!(matches!(LumaError::from("oops"), LumaError::RuntimeError(message) if message == "oops"));
}
