use vstd::prelude::*;
use crate::text::chars_of;

verus! {

pub open spec fn is_digit(c: char) -> bool {
    '0' <= c && c <= '9'
}

pub open spec fn digit_val(c: char) -> int {
    c as int - '0' as int
}

pub open spec fn all_digits(s: Seq<char>) -> bool {
    forall|i: int| 0 <= i < s.len() ==> is_digit(#[trigger] s[i])
}

/// The number a run of decimal digits spells.
pub open spec fn digits_value(s: Seq<char>) -> int
    decreases s.len(),
{
    if s.len() == 0 {
        0
    } else {
        digits_value(s.drop_last()) * 10 + digit_val(s.last())
    }
}

/// What parsing an unsigned decimal number returns: at least one character,
/// digits only, and a value that fits.
pub open spec fn spec_parse_u64(s: Seq<char>) -> Option<u64> {
    if s.len() >= 1 && all_digits(s) && digits_value(s) <= u64::MAX {
        Some(digits_value(s) as u64)
    } else {
        None
    }
}

proof fn lemma_digits_value_nonneg(s: Seq<char>)
    requires
        all_digits(s),
    ensures
        digits_value(s) >= 0,
    decreases s.len(),
{
    if s.len() > 0 {
        assert(all_digits(s.drop_last())) by {
            assert forall|i: int| 0 <= i < s.drop_last().len() implies is_digit(
                #[trigger] s.drop_last()[i],
            ) by {
                assert(s.drop_last()[i] == s[i]);
            }
        }
        lemma_digits_value_nonneg(s.drop_last());
        assert(is_digit(s.last()));
    }
}

/// A prefix of a digit run never spells a larger number than the whole run.
proof fn lemma_digits_prefix(s: Seq<char>, i: int)
    requires
        all_digits(s),
        0 <= i <= s.len(),
    ensures
        digits_value(s.take(i)) <= digits_value(s),
    decreases s.len(),
{
    if i < s.len() {
        assert(all_digits(s.drop_last())) by {
            assert forall|k: int| 0 <= k < s.drop_last().len() implies is_digit(
                #[trigger] s.drop_last()[k],
            ) by {
                assert(s.drop_last()[k] == s[k]);
            }
        }
        assert(s.drop_last().take(i) =~= s.take(i));
        lemma_digits_prefix(s.drop_last(), i);
        lemma_digits_value_nonneg(s.drop_last());
        assert(is_digit(s.last()));
        assert(digits_value(s) >= digits_value(s.drop_last()));
    } else {
        assert(s.take(i) =~= s);
    }
}

/// Parses an unsigned decimal number: at least one character, digits only,
/// refused when the value does not fit in 64 bits.
pub fn parse_u64(s: &str) -> (r: Option<u64>)
    ensures
        r == spec_parse_u64(s@),
{
    let v = chars_of(s);
    let n = v.len();
    if n == 0 {
        return None;
    }
    let mut acc: u64 = 0;
    let mut i: usize = 0;
    proof {
        assert(v@.take(0) =~= Seq::<char>::empty());
    }
    while i < n
        invariant
            n == v@.len(),
            v@ == s@,
            i <= n,
            all_digits(v@.take(i as int)),
            acc == digits_value(v@.take(i as int)),
        decreases n - i,
    {
        let c = v[i];
        if c < '0' || c > '9' {
            proof {
                assert(!is_digit(v@[i as int]));
            }
            return None;
        }
        let d: u64 = (c as u32 as u64) - ('0' as u32 as u64);
        proof {
            assert(v@.take(i as int + 1).drop_last() =~= v@.take(i as int));
            assert(v@.take(i as int + 1).last() == v@[i as int]);
            assert(all_digits(v@.take(i as int + 1))) by {
                assert forall|k: int| 0 <= k < i + 1 implies is_digit(
                    #[trigger] v@.take(i as int + 1)[k],
                ) by {
                    assert(v@.take(i as int + 1)[k] == v@[k]);
                    if k < i {
                        assert(v@.take(i as int)[k] == v@[k]);
                    }
                }
            }
        }
        if acc > (u64::MAX - d) / 10 {
            proof {
                assert(digits_value(v@.take(i as int + 1)) == acc * 10 + d);
                assert(digits_value(v@.take(i as int + 1)) > u64::MAX);
                if all_digits(v@) {
                    lemma_digits_prefix(v@, i as int + 1);
                }
            }
            return None;
        }
        acc = acc * 10 + d;
        i = i + 1;
    }
    proof {
        assert(v@.take(n as int) =~= v@);
    }
    Some(acc)
}

/// Parses an unsigned decimal number that must fit in 16 bits.
pub open spec fn spec_parse_u16(s: Seq<char>) -> Option<u16> {
    if s.len() >= 1 && all_digits(s) && digits_value(s) <= u16::MAX {
        Some(digits_value(s) as u16)
    } else {
        None
    }
}

pub fn parse_u16(s: &str) -> (r: Option<u16>)
    ensures
        r == spec_parse_u16(s@),
{
    proof {
        if s@.len() >= 1 && all_digits(s@) {
            lemma_digits_value_nonneg(s@);
        }
    }
    match parse_u64(s) {
        Some(v) => if v <= u16::MAX as u64 {
            Some(v as u16)
        } else {
            None
        },
        None => {
            proof {
                if s@.len() >= 1 && all_digits(s@) {
                    assert(digits_value(s@) > u64::MAX);
                }
            }
            None
        },
    }
}

/// Parses an unsigned decimal number that must fit in a non-negative `i32`,
/// the shape of every identity in the system.
pub open spec fn spec_parse_i32(s: Seq<char>) -> Option<i32> {
    if s.len() >= 1 && all_digits(s) && digits_value(s) <= i32::MAX {
        Some(digits_value(s) as i32)
    } else {
        None
    }
}

pub fn parse_i32(s: &str) -> (r: Option<i32>)
    ensures
        r == spec_parse_i32(s@),
{
    proof {
        if s@.len() >= 1 && all_digits(s@) {
            lemma_digits_value_nonneg(s@);
        }
    }
    match parse_u64(s) {
        Some(v) => if v <= i32::MAX as u64 {
            Some(v as i32)
        } else {
            None
        },
        None => {
            proof {
                if s@.len() >= 1 && all_digits(s@) {
                    assert(digits_value(s@) > u64::MAX);
                }
            }
            None
        },
    }
}

/// Parses an unsigned decimal number that must fit in a non-negative `i64`.
pub open spec fn spec_parse_i64(s: Seq<char>) -> Option<i64> {
    if s.len() >= 1 && all_digits(s) && digits_value(s) <= i64::MAX {
        Some(digits_value(s) as i64)
    } else {
        None
    }
}

pub fn parse_i64(s: &str) -> (r: Option<i64>)
    ensures
        r == spec_parse_i64(s@),
{
    proof {
        if s@.len() >= 1 && all_digits(s@) {
            lemma_digits_value_nonneg(s@);
        }
    }
    match parse_u64(s) {
        Some(v) => if v <= i64::MAX as u64 {
            Some(v as i64)
        } else {
            None
        },
        None => {
            proof {
                if s@.len() >= 1 && all_digits(s@) {
                    assert(digits_value(s@) > u64::MAX);
                }
            }
            None
        },
    }
}

/// The ten decimal digits, for rendering.
pub const DEC_DIGITS: [char; 10] = ['0', '1', '2', '3', '4', '5', '6', '7', '8', '9'];

/// The canonical decimal spelling of a number: no sign, no leading zero
/// except for zero itself.
pub open spec fn spec_decimal(v: nat) -> Seq<char>
    decreases v,
{
    if v < 10 {
        seq![DEC_DIGITS@[v as int]]
    } else {
        spec_decimal(v / 10) + seq![DEC_DIGITS@[v as int % 10]]
    }
}

/// Renders a number in decimal.
pub fn decimal_string(v: u64) -> (r: String)
    ensures
        r@ == spec_decimal(v as nat),
{
    let mut tmp: Vec<char> = Vec::new();
    let mut x = v;
    loop
        invariant_except_break
            tmp@.len() > 0 ==> x > 0,
        invariant
            tmp@.len() == 0 ==> x == v,
            tmp@.len() > 0 && x > 0 ==> spec_decimal(v as nat) == spec_decimal(x as nat)
                + tmp@.reverse(),
            tmp@.len() > 0 && x == 0 ==> spec_decimal(v as nat) == tmp@.reverse(),
        ensures
            spec_decimal(v as nat) == tmp@.reverse(),
        decreases x, v - tmp@.len() + 1,
    {
        let ghost old_tmp = tmp@;
        let ghost old_x = x;
        let d = (x % 10) as usize;
        tmp.push(DEC_DIGITS[d]);
        x = x / 10;
        proof {
            assert(tmp@.reverse() =~= seq![DEC_DIGITS@[old_x as int % 10]] + old_tmp.reverse());
            if old_x < 10 {
                assert(spec_decimal(old_x as nat) == seq![DEC_DIGITS@[old_x as int]]);
                assert(old_x as int % 10 == old_x as int);
            } else {
                assert(spec_decimal(old_x as nat) == spec_decimal((old_x / 10) as nat) + seq![
                    DEC_DIGITS@[old_x as int % 10],
                ]);
            }
            if old_tmp.len() == 0 {
                if x == 0 {
                    assert(spec_decimal(v as nat) =~= tmp@.reverse());
                } else {
                    assert(spec_decimal(v as nat) =~= spec_decimal(x as nat) + tmp@.reverse());
                }
            } else {
                if x == 0 {
                    assert(spec_decimal(v as nat) =~= tmp@.reverse());
                } else {
                    assert(spec_decimal(v as nat) =~= spec_decimal(x as nat) + tmp@.reverse());
                }
            }
        }
        if x == 0 {
            break;
        }
    }
    let n = tmp.len();
    let mut r = String::new();
    let mut i: usize = 0;
    proof {
        assert(tmp@.reverse().take(0) =~= Seq::<char>::empty());
    }
    while i < n
        invariant
            n == tmp@.len(),
            i <= n,
            spec_decimal(v as nat) == tmp@.reverse(),
            r@ == tmp@.reverse().take(i as int),
        decreases n - i,
    {
        crate::text::push_char(&mut r, tmp[n - 1 - i]);
        proof {
            assert(tmp@.reverse()[i as int] == tmp@[n - 1 - i as int]);
            assert(r@ =~= tmp@.reverse().take(i as int + 1));
        }
        i = i + 1;
    }
    proof {
        assert(tmp@.reverse().take(n as int) =~= tmp@.reverse());
    }
    r
}

} // verus!
