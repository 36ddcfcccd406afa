//! Rendering of runtime values, used by the `print` built-in.
//!
//! A value renders as its variant name around its payload: `Uint(1)`,
//! `Int(-3)`, `Float(2.5)`, `Str("text")` (with the interned text resolved),
//! `Func(Native)`, `Func(Virtual(2))`, `Object(0)` (the heap index) and
//! `Undefined`. Integer payloads render in decimal, proved digit by digit;
//! float payloads render through [`crate::float::float_render`].
use crate::float::{float_render, float_text};
use crate::intern::Interner;
use crate::value::{NativeId, RuntimeFunc, Value};
use vstd::prelude::*;

verus! {

use vstd::string::StringExecFns;

/// The decimal digit character for `d` in `0 ..= 9`.
pub open spec fn dec_digit(d: int) -> char {
    if d == 0 {
        '0'
    } else if d == 1 {
        '1'
    } else if d == 2 {
        '2'
    } else if d == 3 {
        '3'
    } else if d == 4 {
        '4'
    } else if d == 5 {
        '5'
    } else if d == 6 {
        '6'
    } else if d == 7 {
        '7'
    } else if d == 8 {
        '8'
    } else {
        '9'
    }
}

/// The decimal rendering of a natural number, most significant digit first.
pub open spec fn dec_rep(n: nat) -> Seq<char>
    decreases n,
{
    if n < 10 {
        seq![dec_digit(n as int)]
    } else {
        dec_rep(n / 10).push(dec_digit((n % 10) as int))
    }
}

/// The decimal rendering of an integer: a minus sign before the magnitude
/// for negative values.
pub open spec fn dec_int_rep(i: int) -> Seq<char> {
    if i >= 0 {
        dec_rep(i as nat)
    } else {
        seq!['-'] + dec_rep((-i) as nat)
    }
}

/// The one-character string for a decimal digit.
fn digit_str(d: u64) -> (r: &'static str)
    requires
        d < 10,
    ensures
        r@ == seq![dec_digit(d as int)],
{
    proof {
        reveal_strlit("0");
        reveal_strlit("1");
        reveal_strlit("2");
        reveal_strlit("3");
        reveal_strlit("4");
        reveal_strlit("5");
        reveal_strlit("6");
        reveal_strlit("7");
        reveal_strlit("8");
        reveal_strlit("9");
    }
    let r = match d {
        0u64 => "0",
        1u64 => "1",
        2u64 => "2",
        3u64 => "3",
        4u64 => "4",
        5u64 => "5",
        6u64 => "6",
        7u64 => "7",
        8u64 => "8",
        _ => "9",
    };
    proof {
        assert(r@ =~= seq![dec_digit(d as int)]);
    }
    r
}

/// Renders an unsigned integer in decimal.
pub fn u64_dec(n: u64) -> (s: String)
    ensures
        s@ == dec_rep(n as nat),
    decreases n,
{
    if n < 10 {
        digit_str(n).to_owned()
    } else {
        let mut s = u64_dec(n / 10);
        s.append(digit_str(n % 10));
        proof {
            assert(s@ =~= dec_rep(n as nat));
        }
        s
    }
}

/// Renders a signed integer in decimal.
pub fn i64_dec(n: i64) -> (s: String)
    ensures
        s@ == dec_int_rep(n as int),
{
    if n >= 0 {
        u64_dec(n as u64)
    } else {
        let m: u64 = (-(n as i128)) as u64;
        proof {
            reveal_strlit("-");
        }
        let mut s: String = "-".to_owned();
        let mag = u64_dec(m);
        s.append(mag.as_str());
        proof {
            assert(m as nat == (-(n as int)) as nat);
            assert(s@ =~= dec_int_rep(n as int));
        }
        s
    }
}

/// What `print` writes for a value, given the interner's strings; nothing if
/// the value is a string whose handle is out of the interner's range.
pub open spec fn repr_spec(v: Value, strings: Seq<Seq<char>>) -> Option<Seq<char>> {
    match v {
        Value::Int(i) => Some("Int("@ + dec_int_rep(i as int) + ")"@),
        Value::Uint(u) => Some("Uint("@ + dec_rep(u as nat) + ")"@),
        Value::Float(b) => Some("Float("@ + float_text(b) + ")"@),
        Value::Str(h) => if h < strings.len() {
            Some("Str(\""@ + strings[h as int] + "\")"@)
        } else {
            None
        },
        Value::Func(RuntimeFunc::Native(_)) => Some("Func(Native)"@),
        Value::Func(RuntimeFunc::Virtual(i)) => Some(
            "Func(Virtual("@ + dec_rep(i as nat) + "))"@,
        ),
        Value::Object(i) => Some("Object("@ + dec_rep(i as nat) + ")"@),
        Value::Undefined => Some("Undefined"@),
    }
}

/// Renders a value as `print` shows it. Fails exactly on a string value
/// whose handle the interner does not know.
pub fn render_value(v: Value, interner: &Interner) -> (r: Option<String>)
    ensures
        match r {
            Some(s) => repr_spec(v, interner@) == Some(s@),
            None => repr_spec(v, interner@) is None,
        },
{
    match v {
        Value::Int(i) => {
            proof {
                reveal_strlit("Int(");
                reveal_strlit(")");
            }
            let mut s: String = "Int(".to_owned();
            let body = i64_dec(i);
            s.append(body.as_str());
            s.append(")");
            proof {
                assert(Some(s@) =~= repr_spec(v, interner@));
            }
            Some(s)
        },
        Value::Uint(u) => {
            proof {
                reveal_strlit("Uint(");
                reveal_strlit(")");
            }
            let mut s: String = "Uint(".to_owned();
            let body = u64_dec(u);
            s.append(body.as_str());
            s.append(")");
            proof {
                assert(Some(s@) =~= repr_spec(v, interner@));
            }
            Some(s)
        },
        Value::Float(b) => {
            proof {
                reveal_strlit("Float(");
                reveal_strlit(")");
            }
            let mut s: String = "Float(".to_owned();
            let body = float_render(b);
            s.append(body.as_str());
            s.append(")");
            proof {
                assert(Some(s@) =~= repr_spec(v, interner@));
            }
            Some(s)
        },
        Value::Str(h) => {
            if (h as usize) < interner.len() {
                proof {
                    reveal_strlit("Str(\"");
                    reveal_strlit("\")");
                }
                let mut s: String = "Str(\"".to_owned();
                let body = interner.resolve(h);
                s.append(body.as_str());
                s.append("\")");
                proof {
                    assert(Some(s@) =~= repr_spec(v, interner@));
                }
                Some(s)
            } else {
                None
            }
        },
        Value::Func(RuntimeFunc::Native(_)) => {
            proof {
                reveal_strlit("Func(Native)");
            }
            Some("Func(Native)".to_owned())
        },
        Value::Func(RuntimeFunc::Virtual(i)) => {
            proof {
                reveal_strlit("Func(Virtual(");
                reveal_strlit("))");
            }
            let mut s: String = "Func(Virtual(".to_owned();
            let body = u64_dec(i as u64);
            s.append(body.as_str());
            s.append("))");
            proof {
                assert(Some(s@) =~= repr_spec(v, interner@));
            }
            Some(s)
        },
        Value::Object(i) => {
            proof {
                reveal_strlit("Object(");
                reveal_strlit(")");
            }
            let mut s: String = "Object(".to_owned();
            let body = u64_dec(i as u64);
            s.append(body.as_str());
            s.append(")");
            proof {
                assert(Some(s@) =~= repr_spec(v, interner@));
            }
            Some(s)
        },
        Value::Undefined => {
            proof {
                reveal_strlit("Undefined");
            }
            Some("Undefined".to_owned())
        },
    }
}

} // verus!
