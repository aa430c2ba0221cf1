//! Well-formed opaque identifiers.
//!
//! The reference store hands out identifiers as canonical decimal numerals.
//! Every id-taking operation first reads its argument back as such a numeral
//! and fails with [`Error::InvalidReservationId`] when it is malformed, so a
//! malformed id is rejected before any store work.

use vstd::prelude::*;
use vstd::arithmetic::div_mod::lemma_fundamental_div_mod;
use vstd::string::*;

use crate::conflict::chars_of;
use crate::error::Error;

verus! {

/// An ASCII decimal digit.
pub open spec fn is_digit(c: char) -> bool {
    '0' as u32 <= c as u32 && c as u32 <= '9' as u32
}

/// The numeric value of a digit character; zero for anything else.
pub open spec fn digit_val(c: char) -> nat {
    if is_digit(c) {
        (c as u32 - '0' as u32) as nat
    } else {
        0
    }
}

/// The digit character of a value below ten.
pub open spec fn digit_char(d: int) -> char {
    if d == 0 {
        '0'
    } else if d == 1 {
        '1'
    } else if d == 2 {
        '2'
    } else if d == 3 {
        '3'
    } else if d == 4 {
        '4'
    } else if d == 5 {
        '5'
    } else if d == 6 {
        '6'
    } else if d == 7 {
        '7'
    } else if d == 8 {
        '8'
    } else {
        '9'
    }
}

/// The numeric value of a digit string, read from the left.
pub open spec fn dec_val(s: Seq<char>) -> nat
    decreases s.len(),
{
    if s.len() == 0 {
        0
    } else {
        dec_val(s.drop_last()) * 10 + digit_val(s.last())
    }
}

/// A canonical decimal identifier: non-empty, digits only, no leading zero
/// unless the identifier is `0` itself, and a value that fits the id space.
pub open spec fn is_canonical_dec(s: Seq<char>) -> bool {
    s.len() > 0 && (forall|i: int| 0 <= i < s.len() ==> is_digit(#[trigger] s[i])) && (s[0] != '0'
        || s.len() == 1) && dec_val(s) <= u64::MAX
}

/// A digit string's value only grows as more digits are read.
proof fn lemma_dec_val_prefix(s: Seq<char>, i: int)
    requires
        0 <= i <= s.len(),
    ensures
        dec_val(s.subrange(0, i)) <= dec_val(s),
    decreases s.len() - i,
{
    if i < s.len() {
        assert(s.subrange(0, i + 1).drop_last() =~= s.subrange(0, i));
        assert(s.subrange(0, i + 1).last() == s[i]);
        lemma_dec_val_prefix(s, i + 1);
    } else {
        assert(s.subrange(0, i) =~= s);
    }
}

/// Reads a well-formed opaque identifier; a malformed one is rejected with
/// the original text.
pub fn parse_id(s: &str) -> (r: Result<u64, Error>)
    ensures
        r matches Ok(n) ==> is_canonical_dec(s@) && n as nat == dec_val(s@),
        r matches Err(e) ==> !is_canonical_dec(s@) && (e matches Error::InvalidReservationId(m)
            && m@ == s@),
{
    let v = chars_of(s);
    let n = v.len();
    if n == 0 {
        return Err(Error::InvalidReservationId(s.to_owned()));
    }
    if n > 1 && v[0] == '0' {
        return Err(Error::InvalidReservationId(s.to_owned()));
    }
    let mut val: u64 = 0;
    let mut i: usize = 0;
    while i < n
        invariant
            i <= n,
            n == v@.len(),
            v@ == s@,
            n > 0,
            n > 1 ==> v@[0] != '0',
            forall|j: int| 0 <= j < i ==> is_digit(#[trigger] v@[j]),
            val as nat == dec_val(v@.subrange(0, i as int)),
        decreases n - i,
    {
        let c = v[i];
        let cu = c as u32;
        if !('0' as u32 <= cu && cu <= '9' as u32) {
            return Err(Error::InvalidReservationId(s.to_owned()));
        }
        let d = (cu - '0' as u32) as u64;
        proof {
            assert(v@.subrange(0, i + 1 as int).drop_last() =~= v@.subrange(0, i as int));
            assert(v@.subrange(0, i + 1 as int).last() == v@[i as int]);
        }
        if val > (u64::MAX - d) / 10 {
            proof {
                lemma_fundamental_div_mod((u64::MAX - d) as int, 10);
                assert(val * 10 >= ((u64::MAX - d) / 10 + 1) * 10) by (nonlinear_arith)
                    requires
                        val >= (u64::MAX - d) / 10 + 1,
                ;
                assert(dec_val(v@.subrange(0, i + 1 as int)) > u64::MAX);
                lemma_dec_val_prefix(v@, i + 1);
            }
            return Err(Error::InvalidReservationId(s.to_owned()));
        }
        proof {
            lemma_fundamental_div_mod((u64::MAX - d) as int, 10);
            assert(val * 10 <= ((u64::MAX - d) / 10) * 10) by (nonlinear_arith)
                requires
                    val <= (u64::MAX - d) / 10,
            ;
        }
        val = val * 10 + d;
        i = i + 1;
    }
    proof {
        assert(v@.subrange(0, n as int) =~= v@);
    }
    Ok(val)
}

/// A digit character denotes the value it was built from.
proof fn lemma_digit_char_val(d: int)
    requires
        0 <= d < 10,
    ensures
        is_digit(digit_char(d)),
        digit_val(digit_char(d)) == d,
{
}

fn digit_str(d: u64) -> (r: &'static str)
    requires
        d < 10,
    ensures
        r@.len() == 1,
        r@[0] == digit_char(d as int),
{
    proof {
        reveal_strlit("0");
        reveal_strlit("1");
        reveal_strlit("2");
        reveal_strlit("3");
        reveal_strlit("4");
        reveal_strlit("5");
        reveal_strlit("6");
        reveal_strlit("7");
        reveal_strlit("8");
        reveal_strlit("9");
    }
    match d {
        0 => "0",
        1 => "1",
        2 => "2",
        3 => "3",
        4 => "4",
        5 => "5",
        6 => "6",
        7 => "7",
        8 => "8",
        _ => "9",
    }
}

/// The canonical decimal text of an identifier value.
pub fn dec_string(n: u64) -> (s: String)
    ensures
        is_canonical_dec(s@),
        dec_val(s@) == n as nat,
    decreases n,
{
    if n < 10 {
        let s: String = digit_str(n).to_owned();
        proof {
            lemma_digit_char_val(n as int);
            assert(dec_val(Seq::<char>::empty()) == 0);
            assert(s@.drop_last() =~= Seq::<char>::empty());
            assert(s@.last() == s@[0]);
        }
        s
    } else {
        let mut s = dec_string(n / 10);
        let d = n % 10;
        let ghost pre = s@;
        s.append(digit_str(d));
        proof {
            lemma_digit_char_val(d as int);
            assert(s@.len() == pre.len() + 1);
            assert(s@.drop_last() =~= pre);
            assert(s@.last() == s@[pre.len() as int]);
            assert(s@[pre.len() as int] == digit_char(d as int));
            lemma_fundamental_div_mod(n as int, 10);
            assert(s@[0] == pre[0]);
            if pre.len() == 1 {
                assert(dec_val(pre) == digit_val(pre[0])) by {
                    assert(dec_val(Seq::<char>::empty()) == 0);
                    assert(pre.drop_last() =~= Seq::<char>::empty());
                    assert(pre.last() == pre[0]);
                }
                assert(pre[0] != '0');
            }
        }
        s
    }
}

} // verus!
