//! The runtime datum.
use vstd::prelude::*;
use vstd::std_specs::cmp::PartialEqSpecImpl;
use crate::shared::number;
use crate::shared::text;

verus! {

/// A value of the language. A number is an IEEE 754 double, held as its bit
/// pattern.
#[derive(Debug)]
pub enum Value {
    Number(u64),
    String(String),
    Boolean(bool),
    Nil,
}

/// What a [`Value`] is, with text as a sequence of characters.
pub enum ValueView {
    Number(u64),
    String(Seq<char>),
    Boolean(bool),
    Nil,
}

impl View for Value {
    type V = ValueView;

    open spec fn view(&self) -> ValueView {
        match self {
            Value::Number(bits) => ValueView::Number(*bits),
            Value::String(s) => ValueView::String(s@),
            Value::Boolean(b) => ValueView::Boolean(*b),
            Value::Nil => ValueView::Nil,
        }
    }
}

/// The views of a sequence of values, one for one.
pub open spec fn views(values: Seq<Value>) -> Seq<ValueView> {
    values.map_values(|v: Value| v@)
}

impl ValueView {
    /// Everything is truthy but `false` and `nil`.
    pub open spec fn is_truthy(self) -> bool {
        match self {
            ValueView::Boolean(b) => b,
            ValueView::Nil => false,
            _ => true,
        }
    }

    pub open spec fn type_label(self) -> Seq<char> {
        match self {
            ValueView::Number(_) => "number"@,
            ValueView::String(_) => "string"@,
            ValueView::Boolean(_) => "boolean"@,
            ValueView::Nil => "nil"@,
        }
    }

    /// Structural equality; two numbers are equal as numbers are.
    pub open spec fn equals(self, other: ValueView) -> bool {
        match (self, other) {
            (ValueView::Number(a), ValueView::Number(b)) => number::equal(a, b),
            (ValueView::String(a), ValueView::String(b)) => a == b,
            (ValueView::Boolean(a), ValueView::Boolean(b)) => a == b,
            (ValueView::Nil, ValueView::Nil) => true,
            _ => false,
        }
    }

    /// A string holds a numeral that only the host can read.
    pub open spec fn needs_reading(self) -> bool {
        self is String
    }

    /// A number with a fractional part, an infinity or a NaN: only the host
    /// can write it out.
    pub open spec fn needs_writing(self) -> bool {
        self matches ValueView::Number(bits) && !number::is_integral(bits)
    }

    /// The numeric coercion. `read` is what the host made of the text of a
    /// string: its number, or `None` where the text is no numeral.
    pub open spec fn to_number(self, read: Option<u64>) -> Result<u64, Seq<char>> {
        match self {
            ValueView::Number(bits) => Ok(bits),
            ValueView::String(s) => match read {
                Some(bits) => Ok(bits),
                None => Err("Cannot convert '"@ + s + "' to number"@),
            },
            ValueView::Boolean(true) => Ok(number::ONE),
            ValueView::Boolean(false) => Ok(number::ZERO),
            ValueView::Nil => Err("Cannot convert nil to number"@),
        }
    }

    /// The display form. An integral number is written as an integer,
    /// saturated at the ends of `i64`; for any other number the display form
    /// is `written`, the host's rendering of it.
    pub open spec fn to_text(self, written: Seq<char>) -> Seq<char> {
        match self {
            ValueView::Number(bits) => if number::is_integral(bits) {
                text::signed_decimal(number::clamp_i64(number::integral_value(bits)) as int)
            } else {
                written
            },
            ValueView::String(s) => s,
            ValueView::Boolean(true) => "true"@,
            ValueView::Boolean(false) => "false"@,
            ValueView::Nil => "nil"@,
        }
    }
}

impl Clone for Value {
    fn clone(&self) -> (r: Value)
        ensures
            r@ == self@,
    {
        match self {
            Value::Number(bits) => Value::Number(*bits),
            Value::String(s) => Value::String(s.clone()),
            Value::Boolean(b) => Value::Boolean(*b),
            Value::Nil => Value::Nil,
        }
    }
}

impl PartialEq for Value {
    fn eq(&self, other: &Value) -> (r: bool) {
        match (self, other) {
            (Value::Number(a), Value::Number(b)) => number::number_equal(*a, *b),
            (Value::String(a), Value::String(b)) => text::same_text(a.as_str(), b.as_str()),
            (Value::Boolean(a), Value::Boolean(b)) => *a == *b,
            (Value::Nil, Value::Nil) => true,
            _ => false,
        }
    }
}

impl PartialEqSpecImpl for Value {
    open spec fn obeys_eq_spec() -> bool {
        true
    }

    open spec fn eq_spec(&self, other: &Value) -> bool {
        self@.equals(other@)
    }
}

impl Value {
    pub fn type_label(&self) -> (name: &'static str)
        ensures
            name@ == self@.type_label(),
    {
        match self {
            Value::Number(_) => "number",
            Value::String(_) => "string",
            Value::Boolean(_) => "boolean",
            Value::Nil => "nil",
        }
    }

    pub fn is_truthy(&self) -> (r: bool)
        ensures
            r == self@.is_truthy(),
    {
        match self {
            Value::Boolean(b) => *b,
            Value::Nil => false,
            _ => true,
        }
    }

    /// Whether the numeric coercion of this value needs the host to read a
    /// numeral.
    pub fn needs_reading(&self) -> (r: bool)
        ensures
            r == self@.needs_reading(),
    {
        match self {
            Value::String(_) => true,
            _ => false,
        }
    }

    /// Whether the display form of this value needs the host to write a
    /// number out.
    pub fn needs_writing(&self) -> (r: bool)
        ensures
            r == self@.needs_writing(),
    {
        match self {
            Value::Number(bits) => number::number_to_integer(*bits).is_none(),
            _ => false,
        }
    }

    /// The numeric coercion of the value. For a string, `read` is the number
    /// that the host read from its text, or `None` if the text is no numeral;
    /// for any other value `read` is not looked at.
    pub fn to_number(&self, read: Option<u64>) -> (r: Result<u64, String>)
        ensures
            r is Ok == self@.to_number(read) is Ok,
            r matches Ok(bits) ==> self@.to_number(read) == Ok::<u64, Seq<char>>(bits),
            r matches Err(message) ==> self@.to_number(read) == Err::<u64, Seq<char>>(message@),
    {
        match self {
            Value::Number(bits) => Ok(*bits),
            Value::String(s) => match read {
                Some(bits) => Ok(bits),
                None => {
                    let mut message = String::from_str("Cannot convert '");
                    message.append(s.as_str());
                    message.append("' to number");
                    Err(message)
                },
            },
            Value::Boolean(true) => Ok(number::ONE),
            Value::Boolean(false) => Ok(number::ZERO),
            Value::Nil => Err(String::from_str("Cannot convert nil to number")),
        }
    }

    /// The display form of the value. For a number that is not integral,
    /// `written` is the host's rendering of it; for any other value `written`
    /// is not looked at.
    pub fn to_string(&self, written: &str) -> (s: String)
        ensures
            s@ == self@.to_text(written@),
    {
        match self {
            Value::Number(bits) => match number::number_to_integer(*bits) {
                Some(i) => text::format_signed(i),
                None => String::from_str(written),
            },
            Value::String(s) => s.clone(),
            Value::Boolean(true) => String::from_str("true"),
            Value::Boolean(false) => String::from_str("false"),
            Value::Nil => String::from_str("nil"),
        }
    }
}

} // verus!
