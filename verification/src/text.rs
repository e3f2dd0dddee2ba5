//! Textual rendering of message payloads.
//!
//! The rendering is a pure function of the value variant: numbers render
//! in decimal, characters and strings as themselves, booleans as their
//! names, resolved addresses in decimal; a symbol or an unresolved address
//! renders as a placeholder.  Integer rendering is defined and verified
//! here; the text of a floating-point bit pattern is delegated to the
//! software floating-point library and named, since it depends on the bits
//! alone.

use vstd::prelude::*;

use rustc_apfloat::Float;
use vstd::string::StringExecFns;

use crate::value::{Message, Value, ValueView};

verus! {

pub uninterp spec fn f32_text_bits(b: u32) -> Seq<char>;

pub uninterp spec fn f64_text_bits(b: u64) -> Seq<char>;

/// The character of one decimal digit.
pub open spec fn digit_char(d: nat) -> char {
    if d == 0 {
        '0'
    } else if d == 1 {
        '1'
    } else if d == 2 {
        '2'
    } else if d == 3 {
        '3'
    } else if d == 4 {
        '4'
    } else if d == 5 {
        '5'
    } else if d == 6 {
        '6'
    } else if d == 7 {
        '7'
    } else if d == 8 {
        '8'
    } else {
        '9'
    }
}

/// The decimal digits of a natural number, most significant first.
pub open spec fn dec_digits(n: nat) -> Seq<char>
    decreases n,
{
    if n < 10 {
        seq![digit_char(n)]
    } else {
        dec_digits(n / 10).push(digit_char(n % 10))
    }
}

/// The decimal text of an integer: a minus sign ahead of the digits of the
/// magnitude when negative.
pub open spec fn int_text(i: int) -> Seq<char> {
    if i < 0 {
        seq!['-'] + dec_digits((-i) as nat)
    } else {
        dec_digits(i as nat)
    }
}

/// The text a message payload renders to.
pub open spec fn message_text(v: ValueView) -> Seq<char> {
    match v {
        ValueView::Address(Some(a)) => dec_digits(a as nat),
        ValueView::Bool(b) => if b {
            "true"@
        } else {
            "false"@
        },
        ValueView::Char(c) => seq![c],
        ValueView::F32(bits) => f32_text_bits(bits),
        ValueView::F64(bits) => f64_text_bits(bits),
        ValueView::I32(x) => int_text(x as int),
        ValueView::I64(x) => int_text(x as int),
        ValueView::String(s) => s,
        ValueView::Symbol(_) => "unknown value"@,
        ValueView::Address(None) => "unknown value"@,
    }
}

/// The one-character string of one decimal digit.
fn digit_str(d: u64) -> (s: &'static str)
    requires
        d < 10,
    ensures
        s@ == seq![digit_char(d as nat)],
{
    proof {
        reveal_strlit("0");
        reveal_strlit("1");
        reveal_strlit("2");
        reveal_strlit("3");
        reveal_strlit("4");
        reveal_strlit("5");
        reveal_strlit("6");
        reveal_strlit("7");
        reveal_strlit("8");
        reveal_strlit("9");
    }
    let s: &'static str = match d {
        0 => "0",
        1 => "1",
        2 => "2",
        3 => "3",
        4 => "4",
        5 => "5",
        6 => "6",
        7 => "7",
        8 => "8",
        _ => "9",
    };
    proof {
        assert(s@ =~= seq![digit_char(d as nat)]);
    }
    s
}

/// Renders a natural number in decimal.
fn u64_text(n: u64) -> (s: String)
    ensures
        s@ == dec_digits(n as nat),
    decreases n,
{
    if n < 10 {
        digit_str(n).to_owned()
    } else {
        assert(n / 10 < n);
        let mut s = u64_text(n / 10);
        s.append(digit_str(n % 10));
        proof {
            assert(s@ =~= dec_digits(n as nat));
        }
        s
    }
}

/// Renders a signed integer in decimal.
fn i64_text(n: i64) -> (s: String)
    ensures
        s@ == int_text(n as int),
{
    if n >= 0 {
        u64_text(n as u64)
    } else {
        let mag: u64 = (-(n as i128)) as u64;
        assert(mag as nat == (-(n as int)) as nat);
        proof {
            reveal_strlit("-");
        }
        let mut s = String::from_str("-");
        let digits = u64_text(mag);
        s.append(digits.as_str());
        proof {
            assert(s@ =~= int_text(n as int));
        }
        s
    }
}

/// The placeholder for payloads that have no textual form.
fn unknown_text() -> (s: String)
    ensures
        s@ == "unknown value"@,
{
    String::from_str("unknown value")
}

/// Relies on char::to_string: the text of one character is a string
/// holding that character alone.
#[verifier::external_body]
fn char_text(c: char) -> (s: String)
    ensures
        s@ == seq![c],
{
    c.to_string()
}

/// Relies on rustc_apfloat's `Display` for `ieee::Single`: the text
/// depends on the bit pattern alone.
#[verifier::external_body]
fn f32_text(bits: u32) -> (s: String)
    ensures
        s@ == f32_text_bits(bits),
{
    format!("{}", rustc_apfloat::ieee::Single::from_bits(bits as u128))
}

/// Relies on rustc_apfloat's `Display` for `ieee::Double`: the text
/// depends on the bit pattern alone.
#[verifier::external_body]
fn f64_text(bits: u64) -> (s: String)
    ensures
        s@ == f64_text_bits(bits),
{
    format!("{}", rustc_apfloat::ieee::Double::from_bits(bits as u128))
}

impl Message {
    /// The textual rendering of the message's payload, for the sending
    /// side of a channel.
    pub fn get_message(&self) -> (s: String)
        ensures
            s@ == message_text(self@.value),
    {
        match &self.value {
            Value::Address(a) => match a {
                Some(addr) => u64_text(*addr as u64),
                None => unknown_text(),
            },
            Value::Bool(b) => {
                if *b {
                    String::from_str("true")
                } else {
                    String::from_str("false")
                }
            },
            Value::Char(c) => char_text(*c),
            Value::F32(bits) => f32_text(*bits),
            Value::F64(bits) => f64_text(*bits),
            Value::I32(x) => i64_text(*x as i64),
            Value::I64(x) => i64_text(*x),
            Value::String(s) => s.clone(),
            Value::Symbol(_) => unknown_text(),
        }
    }
}

} // verus!
