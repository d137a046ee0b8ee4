//! Checks on the run configuration's numeric parameters.
use vstd::prelude::*;
use vstd::string::*;

verus! {

/// True for the ASCII decimal digits.
pub open spec fn is_digit(c: char) -> bool {
    '0' <= c && c <= '9'
}

/// A non-empty run of decimal digits.
pub open spec fn all_digits(d: Seq<char>) -> bool {
    d.len() > 0 && forall|i: int| 0 <= i < d.len() ==> is_digit(#[trigger] d[i])
}

/// The number that the decimal digits `d` write, most significant first.
pub open spec fn digits_value(d: Seq<char>) -> nat
    decreases d.len(),
{
    if d.len() == 0 {
        0
    } else {
        digits_value(d.drop_last()) * 10 + ((d.last() as nat) - ('0' as nat)) as nat
    }
}

/// The largest magnitude an `i64` can have, that of its minimum.
pub open spec fn i64_magnitude_limit() -> nat {
    0x8000_0000_0000_0000
}

/// The value that `text` writes as a 64-bit signed integer: an optional `+`
/// or `-`, then one or more decimal digits, within the range of `i64`.
/// Anything else, whitespace included, writes no such value.
pub open spec fn parsed_i64(text: Seq<char>) -> Option<int> {
    if text.len() > 0 && text[0] == '-' {
        let d = text.skip(1);
        if all_digits(d) && digits_value(d) <= i64_magnitude_limit() {
            Some(-(digits_value(d) as int))
        } else {
            None
        }
    } else {
        let d = if text.len() > 0 && text[0] == '+' {
            text.skip(1)
        } else {
            text
        };
        if all_digits(d) && digits_value(d) < i64_magnitude_limit() {
            Some(digits_value(d) as int)
        } else {
            None
        }
    }
}

/// Reads `text` as a 64-bit signed decimal integer.
pub fn parse_i64(text: &str) -> (r: Option<i64>)
    ensures
        match parsed_i64(text@) {
            Some(v) => r == Some(v as i64),
            None => r is None,
        },
{
    let n = text.unicode_len();
    let ghost s = text@;
    let mut start: usize = 0;
    let mut negative = false;
    if n > 0 {
        let c = text.get_char(0);
        if c == '-' {
            negative = true;
            start = 1;
        } else if c == '+' {
            start = 1;
        }
    }
    if start >= n {
        proof {
            assert(s.skip(start as int).len() == 0);
        }
        return None;
    }
    let ghost d = s.skip(start as int);
    let mut i: usize = start;
    let mut mag: u64 = 0;
    let mut big = false;
    while i < n
        invariant
            start <= i <= n,
            n == s.len(),
            s == text@,
            d == s.skip(start as int),
            negative == (s.len() > 0 && s[0] == '-'),
            start == (if s.len() > 0 && (s[0] == '-' || s[0] == '+') {
                1usize
            } else {
                0usize
            }),
            forall|k: int| 0 <= k < i - start ==> is_digit(#[trigger] d[k]),
            !big ==> mag as nat == digits_value(d.take(i - start)),
            !big ==> mag as nat <= i64_magnitude_limit(),
            big ==> digits_value(d.take(i - start)) > i64_magnitude_limit(),
        decreases n - i,
    {
        let c = text.get_char(i);
        proof {
            assert(d[i - start] == c);
        }
        if c < '0' || c > '9' {
            proof {
                assert(!is_digit(d[i - start]));
                assert(!all_digits(d));
                if start == 0 {
                    assert(d =~= s);
                }
            }
            return None;
        }
        proof {
            assert(d.take(i - start + 1).drop_last() =~= d.take(i - start));
            assert(d.take(i - start + 1).last() == c);
        }
        let digit = (c as u32 - '0' as u32) as u64;
        if !big {
            if mag > 0x0CCC_CCCC_CCCC_CCCC || mag * 10 + digit > 0x8000_0000_0000_0000 {
                big = true;
            } else {
                mag = mag * 10 + digit;
            }
        }
        i = i + 1;
    }
    proof {
        assert(d.take(i - start) =~= d);
        assert(all_digits(d));
        if start == 0 {
            assert(d =~= s);
        }
    }
    if big {
        None
    } else if negative {
        if mag == 0x8000_0000_0000_0000 {
            Some(i64::MIN)
        } else {
            Some(-(mag as i64))
        }
    } else if mag < 0x8000_0000_0000_0000 {
        Some(mag as i64)
    } else {
        None
    }
}

/// Accepts `val` when it writes a positive 64-bit integer; otherwise says
/// why it is refused.
pub fn positive_integer_validator(val: String) -> (r: Result<(), String>)
    ensures
        match parsed_i64(val@) {
            Some(v) => if v > 0 {
                r is Ok
            } else {
                r is Err && r->Err_0@ == "The value must be greater than 0."@
            },
            None => r is Err && r->Err_0@ == "The value must be an integer."@,
        },
{
    match parse_i64(val.as_str()) {
        None => Err(String::from_str("The value must be an integer.")),
        Some(v) => {
            if v > 0 {
                Ok(())
            } else {
                Err(String::from_str("The value must be greater than 0."))
            }
        },
    }
}

} // verus!
