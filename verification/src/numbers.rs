use vstd::prelude::*;
use vstd::string::StrSliceExecFns;

verus! {

/// Whether `c` is a decimal digit.
pub open spec fn is_digit(c: char) -> bool {
    '0' <= c && c <= '9'
}

/// The value of a decimal digit.
pub open spec fn digit_val(c: char) -> int {
    c as int - '0' as int
}

/// Whether `s` consists of decimal digits only.
pub open spec fn all_digits(s: Seq<char>) -> bool {
    forall|i: int| 0 <= i < s.len() ==> is_digit(#[trigger] s[i])
}

/// The number a digit string denotes, most significant digit first.
pub open spec fn digits_value(s: Seq<char>) -> int
    decreases s.len(),
{
    if s.len() == 0 {
        0
    } else {
        digits_value(s.drop_last()) * 10 + digit_val(s.last())
    }
}

/// The digit character of a value below ten.
pub open spec fn digit_char(d: int) -> char {
    if d == 0 {
        '0'
    } else if d == 1 {
        '1'
    } else if d == 2 {
        '2'
    } else if d == 3 {
        '3'
    } else if d == 4 {
        '4'
    } else if d == 5 {
        '5'
    } else if d == 6 {
        '6'
    } else if d == 7 {
        '7'
    } else if d == 8 {
        '8'
    } else {
        '9'
    }
}

/// The decimal rendering of a non-negative number, without sign or padding.
pub open spec fn dec_str(v: int) -> Seq<char>
    decreases v,
{
    if v < 10 {
        seq![digit_char(v)]
    } else {
        dec_str(v / 10).push(digit_char(v % 10))
    }
}

/// Parses a string of decimal digits as a `u64`. The result exists exactly
/// when the string is non-empty, all digits, and the denoted value fits.
pub fn parse_u64(s: &str) -> (r: Option<u64>)
    ensures
        r is Some <==> s@.len() > 0 && all_digits(s@) && digits_value(s@) <= u64::MAX,
        r is Some ==> r->0 == digits_value(s@),
{
    let n = s.unicode_len();
    if n == 0 {
        return None;
    }
    let mut v: u64 = 0;
    let mut over: bool = false;
    let mut i: usize = 0;
    while i < n
        invariant
            n == s@.len(),
            i <= n,
            all_digits(s@.take(i as int)),
            !over ==> v == digits_value(s@.take(i as int)),
            over ==> digits_value(s@.take(i as int)) > u64::MAX,
        decreases n - i,
    {
        let c = s.get_char(i);
        if c < '0' || c > '9' {
            return None;
        }
        let d: u64 = (c as u32 as u64) - 48;
        proof {
            assert(s@.take(i + 1) =~= s@.take(i as int).push(s@[i as int]));
            assert(s@.take(i + 1).drop_last() =~= s@.take(i as int));
            assert(d == digit_val(s@[i as int]));
        }
        if over {
            proof {
                let prev = digits_value(s@.take(i as int));
                assert(digits_value(s@.take(i + 1)) == prev * 10 + d);
                assert(prev * 10 >= prev) by (nonlinear_arith)
                    requires
                        prev > 0,
                ;
            }
        } else {
            if v > (u64::MAX - d) / 10 {
                proof {
                    let m = u64::MAX as int;
                    assert(v * 10 + d > m) by (nonlinear_arith)
                        requires
                            v > (m - d) / 10,
                            0 <= d <= 9,
                            v >= 0,
                            m == 0xffff_ffff_ffff_ffff,
                    ;
                    assert(digits_value(s@.take(i + 1)) > u64::MAX);
                }
                over = true;
            } else {
                proof {
                    let m = u64::MAX as int;
                    assert(v * 10 + d <= m) by (nonlinear_arith)
                        requires
                            v <= (m - d) / 10,
                            0 <= d <= 9,
                            v >= 0,
                            m == 0xffff_ffff_ffff_ffff,
                    ;
                }
                v = v * 10 + d;
            }
        }
        i = i + 1;
    }
    proof {
        assert(s@.take(n as int) =~= s@);
    }
    if over {
        None
    } else {
        Some(v)
    }
}

/// Parses a string of decimal digits as a `u32`.
pub fn parse_u32(s: &str) -> (r: Option<u32>)
    ensures
        r is Some <==> s@.len() > 0 && all_digits(s@) && digits_value(s@) <= u32::MAX,
        r is Some ==> r->0 == digits_value(s@),
{
    match parse_u64(s) {
        None => None,
        Some(v) => {
            if v <= 0xffff_ffff {
                Some(v as u32)
            } else {
                None
            }
        },
    }
}

/// The digit characters of `ds` read back to front.
pub open spec fn chars_of_rev(ds: Seq<u64>) -> Seq<char> {
    Seq::new(ds.len(), |i: int| digit_char(ds[ds.len() - 1 - i] as int))
}

/// Renders a number in decimal, most significant digit first, no padding.
pub fn u64_to_string(v: u64) -> (r: String)
    ensures
        r@ == dec_str(v as int),
{
    let mut digits: Vec<u64> = Vec::new();
    let mut x: u64 = v;
    digits.push(x % 10);
    x = x / 10;
    proof {
        if x > 0 {
            assert(dec_str(v as int) =~= dec_str(x as int) + chars_of_rev(digits@));
        } else {
            assert(dec_str(v as int) =~= chars_of_rev(digits@));
        }
    }
    while x > 0
        invariant
            digits@.len() > 0,
            x > 0 ==> dec_str(v as int) =~= dec_str(x as int) + chars_of_rev(digits@),
            x == 0 ==> dec_str(v as int) =~= chars_of_rev(digits@),
            forall|k: int| 0 <= k < digits@.len() ==> #[trigger] digits@[k] < 10,
        decreases x,
    {
        let ghost before = digits@;
        let d = x % 10;
        digits.push(d);
        x = x / 10;
        proof {
            assert(chars_of_rev(digits@) =~= seq![digit_char(d as int)] + chars_of_rev(before));
            if x > 0 {
                assert(dec_str(v as int) =~= dec_str(x as int) + chars_of_rev(digits@));
            } else {
                assert(dec_str(v as int) =~= chars_of_rev(digits@));
            }
        }
    }
    let table = "0123456789";
    proof {
        reveal_strlit("0123456789");
        assert(table@ =~= seq!['0', '1', '2', '3', '4', '5', '6', '7', '8', '9']);
        assert(vstd::string::is_ascii(table)) by {
            assert forall|i: int| 0 <= i < table@.len() implies '\0' <= #[trigger] table@[i]
                <= '\u{7f}' by {
                assert(table@[i] == seq!['0', '1', '2', '3', '4', '5', '6', '7', '8', '9'][i]);
            }
        }
    }
    let mut out = String::new();
    let mut i: usize = digits.len();
    while i > 0
        invariant
            i <= digits@.len(),
            table@ =~= seq!['0', '1', '2', '3', '4', '5', '6', '7', '8', '9'],
            vstd::string::is_ascii(table),
            forall|k: int| 0 <= k < digits@.len() ==> #[trigger] digits@[k] < 10,
            out@ =~= chars_of_rev(digits@).take(digits@.len() - i),
        decreases i,
    {
        i = i - 1;
        let d = digits[i];
        let ghost before = out@;
        let piece = table.substring_ascii(d as usize, d as usize + 1);
        proof {
            assert(piece@ =~= seq![digit_char(d as int)]);
        }
        out.append(piece);
        proof {
            assert(out@ =~= before + seq![digit_char(d as int)]);
            let n = digits@.len();
            assert(chars_of_rev(digits@)[n - 1 - i] == digit_char(digits@[i as int] as int));
            assert(out@ =~= chars_of_rev(digits@).take(n - i));
        }
    }
    proof {
        assert(chars_of_rev(digits@).take(digits@.len() as int) =~= chars_of_rev(digits@));
    }
    out
}

/// The decimal rendering of a signed number: a minus sign ahead of the
/// digits when it is negative.
pub open spec fn dec_str_signed(v: int) -> Seq<char> {
    if v < 0 {
        seq!['-'] + dec_str(-v)
    } else {
        dec_str(v)
    }
}

/// Renders a signed number in decimal. Staying clear of the lowest `i64` is
/// a machine limit (its negation does not fit).
pub fn i64_to_string(v: i64) -> (r: String)
    requires
        v > i64::MIN,
    ensures
        r@ == dec_str_signed(v as int),
{
    if v < 0 {
        let mut out = String::new();
        let minus = "-";
        proof {
            reveal_strlit("-");
            assert(minus@ =~= seq!['-']);
        }
        out.append(minus);
        let rest = u64_to_string((-v) as u64);
        let ghost before = out@;
        out.append(rest.as_str());
        proof {
            assert(out@ =~= seq!['-'] + dec_str(-v as int));
        }
        out
    } else {
        u64_to_string(v as u64)
    }
}

} // verus!
