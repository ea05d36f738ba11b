//! The marker codec: the textual form of the timestamp a holder stores to
//! claim a lock.
//!
//! A marker is the decimal rendering of a millisecond timestamp. Reading one
//! back must recover exactly the number that was written, because the claim
//! protocol decides ownership by comparing the parsed readback with the value
//! it wrote; the round trip is proved here. A stored value that is not a
//! nonempty string of decimal digits, or whose value does not fit in `u64`,
//! does not parse, and the protocol treats such a marker as abandoned.

use vstd::prelude::*;
use vstd::arithmetic::div_mod::lemma_fundamental_div_mod;

verus! {

/// A decimal digit `'0'..='9'`.
pub open spec fn is_digit(c: char) -> bool {
    '0' <= c && c <= '9'
}

/// The numeric value of a decimal digit.
pub open spec fn digit_val(c: char) -> nat {
    (c as int - '0' as int) as nat
}

/// Every character of `s` is a decimal digit.
pub open spec fn all_digits(s: Seq<char>) -> bool {
    forall|i: int| 0 <= i < s.len() ==> is_digit(#[trigger] s[i])
}

/// The number denoted by a sequence of decimal digits, most significant
/// first. The empty sequence denotes zero.
pub open spec fn digits_val(s: Seq<char>) -> nat
    decreases s.len(),
{
    if s.len() == 0 {
        0
    } else {
        digits_val(s.drop_last()) * 10 + digit_val(s.last())
    }
}

/// What a stored marker parses to: `Some(t)` exactly when the whole string is
/// a nonempty run of decimal digits denoting a value that fits in `u64`.
pub open spec fn parse_spec(s: Seq<char>) -> Option<u64> {
    if s.len() > 0 && all_digits(s) && digits_val(s) <= u64::MAX {
        Some(digits_val(s) as u64)
    } else {
        None
    }
}

/// The digit character for a value below ten.
pub open spec fn digit_char(d: nat) -> char {
    if d == 0 {
        '0'
    } else if d == 1 {
        '1'
    } else if d == 2 {
        '2'
    } else if d == 3 {
        '3'
    } else if d == 4 {
        '4'
    } else if d == 5 {
        '5'
    } else if d == 6 {
        '6'
    } else if d == 7 {
        '7'
    } else if d == 8 {
        '8'
    } else {
        '9'
    }
}

/// The canonical decimal rendering of `n`: no sign, no leading zero except
/// for `n == 0` itself.
pub open spec fn dec_digits(n: nat) -> Seq<char>
    decreases n,
{
    if n < 10 {
        seq![digit_char(n)]
    } else {
        dec_digits(n / 10).push(digit_char(n % 10))
    }
}

/// The canonical rendering consists of digits and denotes the number it was
/// made from.
pub proof fn lemma_dec_digits_val(n: nat)
    ensures
        dec_digits(n).len() >= 1,
        all_digits(dec_digits(n)),
        digits_val(dec_digits(n)) == n,
    decreases n,
{
    if n < 10 {
        let s = dec_digits(n);
        assert(s =~= seq![digit_char(n)]);
        assert(s.last() == digit_char(n));
        assert(s.drop_last() =~= Seq::<char>::empty());
        assert(digits_val(Seq::<char>::empty()) == 0);
        assert(digits_val(s) == digits_val(s.drop_last()) * 10 + digit_val(s.last()));
        assert(digit_val(digit_char(n)) == n);
    } else {
        lemma_dec_digits_val(n / 10);
        let p = dec_digits(n / 10);
        let s = dec_digits(n);
        assert(s =~= p.push(digit_char(n % 10)));
        assert(s.drop_last() =~= p);
        assert(s.last() == digit_char(n % 10));
        assert(digit_val(digit_char(n % 10)) == n % 10);
        assert(digits_val(s) == (n / 10) * 10 + n % 10);
        lemma_fundamental_div_mod(n as int, 10);
    }
}

/// Parsing inverts formatting: the rendering of `t` parses back to exactly
/// `t`. The claim protocol's readback comparison rests on this.
pub proof fn lemma_parse_format_round_trip(t: u64)
    ensures
        parse_spec(dec_digits(t as nat)) == Some(t),
{
    lemma_dec_digits_val(t as nat);
}

/// A digit sequence denotes at least as much as any of its prefixes.
proof fn lemma_digits_val_prefix_le(s: Seq<char>, i: int)
    requires
        0 <= i <= s.len(),
    ensures
        digits_val(s.subrange(0, i)) <= digits_val(s),
    decreases s.len() - i,
{
    if i == s.len() {
        assert(s.subrange(0, i) =~= s);
    } else {
        lemma_digits_val_prefix_le(s, i + 1);
        let p = s.subrange(0, i);
        let q = s.subrange(0, i + 1);
        assert(q.drop_last() =~= p);
        assert(digits_val(q) == digits_val(p) * 10 + digit_val(s[i]));
        assert(digits_val(p) * 10 >= digits_val(p)) by (nonlinear_arith);
    }
}

/// The one-character string for a digit value.
fn digit_str(d: u64) -> (r: &'static str)
    requires
        d < 10,
    ensures
        r@ =~= seq![digit_char(d as nat)],
{
    match d {
        0 => {
            proof {
                reveal_strlit("0");
            }
            "0"
        },
        1 => {
            proof {
                reveal_strlit("1");
            }
            "1"
        },
        2 => {
            proof {
                reveal_strlit("2");
            }
            "2"
        },
        3 => {
            proof {
                reveal_strlit("3");
            }
            "3"
        },
        4 => {
            proof {
                reveal_strlit("4");
            }
            "4"
        },
        5 => {
            proof {
                reveal_strlit("5");
            }
            "5"
        },
        6 => {
            proof {
                reveal_strlit("6");
            }
            "6"
        },
        7 => {
            proof {
                reveal_strlit("7");
            }
            "7"
        },
        8 => {
            proof {
                reveal_strlit("8");
            }
            "8"
        },
        _ => {
            proof {
                reveal_strlit("9");
            }
            "9"
        },
    }
}

/// Append the decimal rendering of `t` to `out`.
fn push_digits(t: u64, out: &mut String)
    ensures
        final(out)@ == old(out)@ + dec_digits(t as nat),
    decreases t,
{
    if t >= 10 {
        proof {
            assert(t / 10 < t) by (nonlinear_arith)
                requires
                    t >= 10,
            ;
        }
        push_digits(t / 10, out);
        let d = t % 10;
        out.append(digit_str(d));
        proof {
            assert(dec_digits(t as nat) =~= dec_digits(t as nat / 10).push(
                digit_char(t as nat % 10),
            ));
            assert(out@ =~= old(out)@ + dec_digits(t as nat));
        }
    } else {
        out.append(digit_str(t));
        proof {
            assert(out@ =~= old(out)@ + dec_digits(t as nat));
        }
    }
}

/// Render a timestamp as a marker: its canonical decimal form.
pub fn format_marker(t: u64) -> (r: String)
    ensures
        r@ == dec_digits(t as nat),
{
    let mut r = String::new();
    push_digits(t, &mut r);
    proof {
        assert(r@ =~= dec_digits(t as nat));
    }
    r
}

/// Parse a stored marker. Returns the timestamp exactly when the whole
/// string is a nonempty run of decimal digits whose value fits in `u64`;
/// anything else — empty, a stray character, a sign, overflow — is `None`.
pub fn parse_marker(s: &str) -> (r: Option<u64>)
    ensures
        r == parse_spec(s@),
{
    let n = s.unicode_len();
    if n == 0 {
        return None;
    }
    let mut val: u64 = 0;
    let mut i: usize = 0;
    while i < n
        invariant
            n == s@.len(),
            0 < n,
            i <= n,
            all_digits(s@.subrange(0, i as int)),
            digits_val(s@.subrange(0, i as int)) == val,
        decreases n - i,
    {
        let c = s.get_char(i);
        let u = c as u32;
        if !(48 <= u && u <= 57) {
            proof {
                assert(!is_digit(s@[i as int]));
            }
            return None;
        }
        let d = (u - 48) as u64;
        proof {
            assert(s@.subrange(0, i + 1).drop_last() =~= s@.subrange(0, i as int));
            assert(s@.subrange(0, i + 1).last() == s@[i as int]);
            assert(digit_val(s@[i as int]) == d);
        }
        let next = match val.checked_mul(10) {
            Some(v10) => v10.checked_add(d),
            None => None,
        };
        match next {
            Some(v) => {
                val = v;
            },
            None => {
                proof {
                    assert(digits_val(s@.subrange(0, i + 1)) > u64::MAX);
                    lemma_digits_val_prefix_le(s@, i + 1);
                }
                return None;
            },
        }
        i += 1;
    }
    proof {
        assert(s@.subrange(0, n as int) =~= s@);
    }
    Some(val)
}

/// A character the filesystem medium pads a marker with: ASCII whitespace
/// around the stored digits, such as the line terminator written after the
/// timestamp.
pub open spec fn is_marker_space(c: char) -> bool {
    c == ' ' || c == '\n' || c == '\r' || c == '\t'
}

/// `s` without its leading whitespace.
pub open spec fn trim_start_spec(s: Seq<char>) -> Seq<char>
    decreases s.len(),
{
    if s.len() > 0 && is_marker_space(s[0]) {
        trim_start_spec(s.subrange(1, s.len() as int))
    } else {
        s
    }
}

/// `s` without its trailing whitespace.
pub open spec fn trim_end_spec(s: Seq<char>) -> Seq<char>
    decreases s.len(),
{
    if s.len() > 0 && is_marker_space(s.last()) {
        trim_end_spec(s.drop_last())
    } else {
        s
    }
}

/// `s` without leading and trailing whitespace.
pub open spec fn trim_spec(s: Seq<char>) -> Seq<char> {
    trim_end_spec(trim_start_spec(s))
}

/// Whether a character is marker-padding whitespace.
fn is_space_char(c: char) -> (r: bool)
    ensures
        r == is_marker_space(c),
{
    let u = c as u32;
    u == 32 || u == 10 || u == 13 || u == 9
}

/// Strip the whitespace a filesystem medium adds around a stored marker,
/// such as the trailing line terminator.
pub fn trim_marker<'a>(s: &'a str) -> (r: &'a str)
    ensures
        r@ == trim_spec(s@),
{
    let n = s.unicode_len();
    proof {
        assert(s@.subrange(0, n as int) =~= s@);
    }
    let mut a: usize = 0;
    while a < n && is_space_char(s.get_char(a))
        invariant
            n == s@.len(),
            a <= n,
            trim_start_spec(s@) == trim_start_spec(s@.subrange(a as int, n as int)),
        decreases n - a,
    {
        proof {
            let rest = s@.subrange(a as int, n as int);
            assert(rest[0] == s@[a as int]);
            assert(rest.subrange(1, rest.len() as int) =~= s@.subrange(a + 1, n as int));
        }
        a += 1;
    }
    proof {
        let core = s@.subrange(a as int, n as int);
        if a < n {
            assert(!is_marker_space(core[0]));
        }
        assert(trim_start_spec(s@) == core);
    }
    let mut b: usize = n;
    while b > a && is_space_char(s.get_char(b - 1))
        invariant
            n == s@.len(),
            a <= b <= n,
            trim_end_spec(s@.subrange(a as int, n as int)) == trim_end_spec(
                s@.subrange(a as int, b as int),
            ),
        decreases b - a,
    {
        proof {
            let cur = s@.subrange(a as int, b as int);
            assert(cur.last() == s@[b - 1]);
            assert(cur.drop_last() =~= s@.subrange(a as int, b - 1));
        }
        b -= 1;
    }
    proof {
        let cur = s@.subrange(a as int, b as int);
        if b > a {
            assert(!is_marker_space(cur.last()));
        }
        assert(trim_spec(s@) == cur);
    }
    s.substring_char(a, b)
}

} // verus!
