//! The tagged runtime datum and its mathematical model.

use vstd::prelude::*;

verus! {

/// Mathematical shape of a runtime value: text is a sequence of characters,
/// numbers are 64-bit signed machine integers.
pub enum ValueView {
    Empty,
    Number(i64),
    Boolean(bool),
    Text(Seq<char>),
}

/// The runtime datum held in registers and in the variable store.
#[derive(Debug, PartialEq)]
pub enum Value {
    /// Sentinel of an allocated but never written register slot.
    Empty,
    Number(i64),
    Boolean(bool),
    Text(String),
}

impl View for Value {
    type V = ValueView;

    open spec fn view(&self) -> ValueView {
        match self {
            Value::Empty => ValueView::Empty,
            Value::Number(n) => ValueView::Number(*n),
            Value::Boolean(b) => ValueView::Boolean(*b),
            Value::Text(s) => ValueView::Text(s@),
        }
    }
}

impl DeepView for Value {
    type V = ValueView;

    open spec fn deep_view(&self) -> ValueView {
        self.view()
    }
}

impl Clone for Value {
    fn clone(&self) -> (r: Self)
        ensures
            r == *self,
    {
        match self {
            Value::Empty => Value::Empty,
            Value::Number(n) => Value::Number(*n),
            Value::Boolean(b) => Value::Boolean(*b),
            Value::Text(s) => Value::Text(s.clone()),
        }
    }
}

impl ValueView {
    /// Truth of a value when a conditional jump tests it: positive numbers
    /// and `true` are truthy, everything else is falsy.
    pub open spec fn truthy(self) -> bool {
        match self {
            ValueView::Number(n) => n > 0,
            ValueView::Boolean(b) => b,
            _ => false,
        }
    }

    /// Characters printed for a value.
    pub open spec fn display(self) -> Seq<char> {
        match self {
            ValueView::Empty => seq!['[', 'e', 'm', 'p', 't', 'y', ']'],
            ValueView::Number(n) => num_seq(n as int),
            ValueView::Boolean(b) => bool_seq(b),
            ValueView::Text(s) => s,
        }
    }
}

/// Characters printed for a boolean.
pub open spec fn bool_seq(b: bool) -> Seq<char> {
    if b {
        seq!['t', 'r', 'u', 'e']
    } else {
        seq!['f', 'a', 'l', 's', 'e']
    }
}

/// The decimal digit character for `d` (meaningful for `d < 10`).
pub open spec fn digit_char(d: nat) -> char {
    if d == 0 {
        '0'
    } else if d == 1 {
        '1'
    } else if d == 2 {
        '2'
    } else if d == 3 {
        '3'
    } else if d == 4 {
        '4'
    } else if d == 5 {
        '5'
    } else if d == 6 {
        '6'
    } else if d == 7 {
        '7'
    } else if d == 8 {
        '8'
    } else {
        '9'
    }
}

/// Decimal digit sequence of a nonnegative integer, most significant first.
pub open spec fn dec_seq(n: nat) -> Seq<char>
    decreases n,
{
    if n < 10 {
        seq![digit_char(n)]
    } else {
        dec_seq(n / 10).push(digit_char(n % 10))
    }
}

/// Decimal rendering of a signed integer, with a leading minus sign when
/// negative.
pub open spec fn num_seq(n: int) -> Seq<char> {
    if n < 0 {
        seq!['-'] + dec_seq((-n) as nat)
    } else {
        dec_seq(n as nat)
    }
}

/// 64-bit wrapping addition: the machine arithmetic of `Number` values.
pub open spec fn num_add(a: i64, b: i64) -> i64 {
    vstd::wrapping::i64_specs::wrapping_add(a, b)
}

/// 64-bit wrapping subtraction.
pub open spec fn num_sub(a: i64, b: i64) -> i64 {
    vstd::wrapping::i64_specs::wrapping_sub(a, b)
}

/// 64-bit wrapping multiplication.
pub open spec fn num_mul(a: i64, b: i64) -> i64 {
    vstd::wrapping::i64_specs::wrapping_mul(a, b)
}

/// Truncating 64-bit division; the one overflowing case wraps back to
/// `i64::MIN`. Meaningful only for a nonzero divisor.
pub open spec fn num_div(a: i64, b: i64) -> i64
    recommends
        b != 0,
{
    match a.checked_div(b) {
        Some(q) => q,
        None => i64::MIN,
    }
}

/// Value rule of the add instruction: numeric addition, text concatenation,
/// and text/number coercion in either operand order (the number is rendered
/// and appended after the text, whichever side it stood on); `None` when the
/// operand kinds cannot be combined.
pub open spec fn add_views(a: ValueView, b: ValueView) -> Option<ValueView> {
    match (a, b) {
        (ValueView::Number(x), ValueView::Number(y)) => Some(ValueView::Number(num_add(x, y))),
        (ValueView::Text(s), ValueView::Text(t)) => Some(ValueView::Text(s + t)),
        (ValueView::Text(s), ValueView::Number(y)) => Some(ValueView::Text(s + num_seq(y as int))),
        (ValueView::Number(x), ValueView::Text(t)) => Some(ValueView::Text(t + num_seq(x as int))),
        _ => None,
    }
}

fn digit_str(d: u64) -> (s: &'static str)
    requires
        d < 10,
    ensures
        s@ == seq![digit_char(d as nat)],
{
    let s: &'static str = if d == 0 {
        "0"
    } else if d == 1 {
        "1"
    } else if d == 2 {
        "2"
    } else if d == 3 {
        "3"
    } else if d == 4 {
        "4"
    } else if d == 5 {
        "5"
    } else if d == 6 {
        "6"
    } else if d == 7 {
        "7"
    } else if d == 8 {
        "8"
    } else {
        "9"
    };
    proof {
        reveal_strlit("0");
        reveal_strlit("1");
        reveal_strlit("2");
        reveal_strlit("3");
        reveal_strlit("4");
        reveal_strlit("5");
        reveal_strlit("6");
        reveal_strlit("7");
        reveal_strlit("8");
        reveal_strlit("9");
        assert(s@ =~= seq![digit_char(d as nat)]);
    }
    s
}

/// Renders a nonnegative integer in decimal.
pub fn u64_to_string(n: u64) -> (s: String)
    ensures
        s@ == dec_seq(n as nat),
    decreases n,
{
    if n < 10 {
        String::from_str(digit_str(n))
    } else {
        let mut s = u64_to_string(n / 10);
        s.append(digit_str(n % 10));
        proof {
            assert(s@ =~= dec_seq(n as nat));
        }
        s
    }
}

/// Renders a signed integer in decimal.
pub fn i64_to_string(n: i64) -> (s: String)
    ensures
        s@ == num_seq(n as int),
{
    if n >= 0 {
        u64_to_string(n as u64)
    } else {
        let mag: u64 = if n == i64::MIN {
            9223372036854775808u64
        } else {
            (-n) as u64
        };
        assert(mag == -(n as int));
        let mut s = String::from_str("-");
        proof {
            reveal_strlit("-");
        }
        let digits = u64_to_string(mag);
        s.append(digits.as_str());
        proof {
            assert(s@ =~= num_seq(n as int));
        }
        s
    }
}

impl Value {
    /// Runtime truth test, mirroring `ValueView::truthy`.
    pub fn is_truthy(&self) -> (b: bool)
        ensures
            b == self@.truthy(),
    {
        match self {
            Value::Number(n) => *n > 0,
            Value::Boolean(b) => *b,
            _ => false,
        }
    }

    /// Human-readable rendering, mirroring `ValueView::display`.
    pub fn to_display_string(&self) -> (s: String)
        ensures
            s@ == self@.display(),
    {
        match self {
            Value::Empty => {
                let s = String::from_str("[empty]");
                proof {
                    reveal_strlit("[empty]");
                    assert(s@ =~= self@.display());
                }
                s
            },
            Value::Number(n) => i64_to_string(*n),
            Value::Boolean(b) => {
                if *b {
                    let s = String::from_str("true");
                    proof {
                        reveal_strlit("true");
                        assert(s@ =~= self@.display());
                    }
                    s
                } else {
                    let s = String::from_str("false");
                    proof {
                        reveal_strlit("false");
                        assert(s@ =~= self@.display());
                    }
                    s
                }
            },
            Value::Text(t) => t.clone(),
        }
    }
}

/// Runtime evaluation of the add instruction's value rule, mirroring
/// `add_views`.
pub fn add_values(a: &Value, b: &Value) -> (r: Option<Value>)
    ensures
        (r is Some) == (add_views(a@, b@) is Some),
        r matches Some(v) ==> add_views(a@, b@) == Some(v@),
{
    match (a, b) {
        (Value::Number(x), Value::Number(y)) => Some(Value::Number(x.wrapping_add(*y))),
        (Value::Text(s), Value::Text(t)) => Some(Value::Text(s.clone().concat(t.as_str()))),
        (Value::Text(s), Value::Number(y)) => {
            let rendered = i64_to_string(*y);
            Some(Value::Text(s.clone().concat(rendered.as_str())))
        },
        (Value::Number(x), Value::Text(t)) => {
            let rendered = i64_to_string(*x);
            Some(Value::Text(t.clone().concat(rendered.as_str())))
        },
        _ => None,
    }
}

} // verus!
