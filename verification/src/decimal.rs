//! Decimal counter tokens: the digit strings that carry the tick counters in
//! a statistics line, their mathematical value, and the exec functions that
//! parse and render them.

use vstd::arithmetic::div_mod::lemma_fundamental_div_mod;
use vstd::prelude::*;

verus! {

/// True iff `c` is an ASCII decimal digit.
pub open spec fn is_digit(c: char) -> bool {
    48 <= c as int <= 57
}

/// Numeric value of a digit character.
pub open spec fn digit_val(c: char) -> int {
    c as int - 48
}

/// The digit character for a value in `0..10`.
pub open spec fn digit_char(d: int) -> char {
    ((48 + d) as u8) as char
}

/// True iff every character of `s` is a decimal digit.
pub open spec fn all_digits(s: Seq<char>) -> bool {
    forall|i: int| 0 <= i < s.len() ==> is_digit(s[i])
}

/// The integer denoted by the digit string `s`, most significant digit first.
pub open spec fn dec_val(s: Seq<char>) -> int
    decreases s.len(),
{
    if s.len() == 0 {
        0
    } else {
        dec_val(s.drop_last()) * 10 + digit_val(s.last())
    }
}

/// True iff `s` denotes an unsigned 64-bit counter: non-empty, digits only,
/// and a value that fits in a `u64`.
pub open spec fn is_counter_token(s: Seq<char>) -> bool {
    s.len() > 0 && all_digits(s) && dec_val(s) <= u64::MAX
}

/// The decimal rendering of a non-negative value, most significant digit
/// first, with no leading zeros (zero renders as the single digit `0`).
pub open spec fn spec_render(v: int) -> Seq<char>
    decreases v,
{
    if v < 10 {
        seq![digit_char(v)]
    } else {
        spec_render(v / 10).push(digit_char(v % 10))
    }
}

/// The value of an all-digit string is non-negative.
pub proof fn lemma_dec_val_nonneg(s: Seq<char>)
    requires
        all_digits(s),
    ensures
        dec_val(s) >= 0,
    decreases s.len(),
{
    if s.len() > 0 {
        lemma_dec_val_nonneg(s.drop_last());
    }
}

proof fn lemma_dec_val_take_succ(s: Seq<char>, i: int)
    requires
        0 <= i < s.len(),
    ensures
        dec_val(s.take(i + 1)) == dec_val(s.take(i)) * 10 + digit_val(s[i]),
{
    assert(s.take(i + 1).drop_last() =~= s.take(i));
    assert(s.take(i + 1).last() == s[i]);
}

/// For an all-digit string, the value of any prefix is a lower bound on the
/// value of the whole string.
proof fn lemma_dec_val_prefix_bound(s: Seq<char>, i: int)
    requires
        all_digits(s),
        0 <= i <= s.len(),
    ensures
        dec_val(s) >= dec_val(s.take(i)),
    decreases s.len() - i,
{
    if i < s.len() {
        lemma_dec_val_take_succ(s, i);
        assert(all_digits(s.take(i)));
        lemma_dec_val_nonneg(s.take(i));
        lemma_dec_val_prefix_bound(s, i + 1);
    } else {
        assert(s.take(i) =~= s);
    }
}

/// Parse a decimal token into a `u64`.  Rejects the empty token, any
/// non-digit character, and values that do not fit in 64 bits.
pub fn parse_u64(t: &Vec<char>) -> (r: Option<u64>)
    ensures
        (r is Some) == is_counter_token(t@),
        r matches Some(v) ==> v == dec_val(t@),
{
    if t.len() == 0 {
        return None;
    }
    let mut acc: u64 = 0;
    let mut i: usize = 0;
    while i < t.len()
        invariant
            0 <= i <= t.len(),
            forall|j: int| 0 <= j < i ==> is_digit(t@[j]),
            acc == dec_val(t@.take(i as int)),
        decreases t.len() - i,
    {
        let c: char = t[i];
        if c < '0' || c > '9' {
            assert(!is_digit(t@[i as int]));
            return None;
        }
        let d = (c as u32 - 48) as u64;
        proof {
            assert(is_digit(t@[i as int]));
            assert(d == digit_val(t@[i as int]));
            lemma_dec_val_take_succ(t@, i as int);
            assert(t@.take(i + 1 as int)[i as int] == t@[i as int]);
        }
        if acc > (u64::MAX - d) / 10 {
            proof {
                assert(acc * 10 + d > u64::MAX) by (nonlinear_arith)
                    requires
                        acc > (u64::MAX - d) / 10,
                        0 <= d <= 9,
                ;
                if all_digits(t@) {
                    lemma_dec_val_prefix_bound(t@, i as int + 1);
                }
            }
            return None;
        }
        proof {
            assert(acc * 10 + d <= u64::MAX) by (nonlinear_arith)
                requires
                    acc <= (u64::MAX - d) / 10,
                    0 <= d <= 9,
            ;
        }
        acc = acc * 10 + d;
        i = i + 1;
    }
    proof {
        assert(t@.take(i as int) =~= t@);
    }
    Some(acc)
}

/// Render `v` in decimal, most significant digit first.
pub fn render_u64(v: u64) -> (r: Vec<char>)
    ensures
        r@ == spec_render(v as int),
    decreases v,
{
    if v < 10 {
        let c = (48u8 + v as u8) as char;
        let mut r: Vec<char> = Vec::new();
        r.push(c);
        proof {
            assert(r@ =~= spec_render(v as int));
        }
        r
    } else {
        let mut r = render_u64(v / 10);
        let c = (48u8 + (v % 10) as u8) as char;
        r.push(c);
        proof {
            assert(r@ =~= spec_render(v as int));
        }
        r
    }
}

/// Law: rendering any counter value in decimal and parsing the result gives
/// back exactly that value (a round trip on the integers).
pub proof fn lemma_render_parse_round_trip(v: u64)
    ensures
        is_counter_token(spec_render(v as int)),
        dec_val(spec_render(v as int)) == v,
    decreases v,
{
    reveal_with_fuel(dec_val, 2);
    if v < 10 {
        let s = spec_render(v as int);
        assert(s.len() == 1 && s[0] == digit_char(v as int));
        assert(digit_char(v as int) as int == 48 + v);
        assert(s.drop_last() =~= Seq::<char>::empty());
        assert(s.last() == digit_char(v as int));
        assert(dec_val(s) == digit_val(digit_char(v as int)));
        assert(digit_val(digit_char(v as int)) == v);
    } else {
        lemma_render_parse_round_trip(v / 10);
        let p = spec_render((v / 10) as int);
        let s = spec_render(v as int);
        let c = digit_char((v % 10) as int);
        assert(c as int == 48 + (v % 10));
        assert(s == p.push(c));
        assert(s.drop_last() =~= p);
        assert(s.last() == c);
        assert(dec_val(s) == dec_val(p) * 10 + digit_val(c));
        lemma_fundamental_div_mod(v as int, 10);
        assert(dec_val(s) == v);
        assert forall|i: int| 0 <= i < s.len() implies is_digit(s[i]) by {
            if i < p.len() {
                assert(s[i] == p[i]);
                assert(is_digit(p[i]));
            } else {
                assert(s[i] == c);
            }
        }
    }
}

} // verus!
