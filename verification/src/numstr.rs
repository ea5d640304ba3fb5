//! Decimal rendering and parsing of unsigned integers.
//!
//! User identifiers travel through token claims as decimal strings; this
//! module pins down that encoding exactly, so that contracts elsewhere can
//! speak of the round trip between an id and its string form.

use vstd::prelude::*;

verus! {

/// The character for a single decimal digit value.
pub open spec fn dec_digit(d: int) -> char {
    if d == 0 {
        '0'
    } else if d == 1 {
        '1'
    } else if d == 2 {
        '2'
    } else if d == 3 {
        '3'
    } else if d == 4 {
        '4'
    } else if d == 5 {
        '5'
    } else if d == 6 {
        '6'
    } else if d == 7 {
        '7'
    } else if d == 8 {
        '8'
    } else {
        '9'
    }
}

/// The numeric value of a digit character; 10 marks a non-digit.
pub open spec fn digit_val(c: char) -> int {
    if c == '0' {
        0
    } else if c == '1' {
        1
    } else if c == '2' {
        2
    } else if c == '3' {
        3
    } else if c == '4' {
        4
    } else if c == '5' {
        5
    } else if c == '6' {
        6
    } else if c == '7' {
        7
    } else if c == '8' {
        8
    } else if c == '9' {
        9
    } else {
        10
    }
}

pub open spec fn is_dec_digit(c: char) -> bool {
    digit_val(c) < 10
}

/// Decimal digits of a positive number, most significant first; empty for 0.
pub open spec fn dec_str_rec(n: int) -> Seq<char>
    decreases n,
{
    if n <= 0 {
        Seq::<char>::empty()
    } else {
        dec_str_rec(n / 10).push(dec_digit(n % 10))
    }
}

/// Canonical decimal rendering of a non-negative number.
pub open spec fn dec_str(n: int) -> Seq<char> {
    if n == 0 {
        seq!['0']
    } else {
        dec_str_rec(n)
    }
}

/// The value denoted by a sequence of digit characters.
pub open spec fn dec_val(s: Seq<char>) -> int
    decreases s.len(),
{
    if s.len() == 0 {
        0
    } else {
        dec_val(s.drop_last()) * 10 + digit_val(s.last())
    }
}

/// Every character of `dec_str_rec(n)` is a digit, the first one is not `'0'`,
/// and the string denotes `n`.
pub proof fn lemma_dec_str_rec_shape(n: int)
    requires
        n > 0,
    ensures
        dec_str_rec(n).len() > 0,
        forall|i: int| 0 <= i < dec_str_rec(n).len() ==> is_dec_digit(#[trigger] dec_str_rec(n)[i]),
        dec_str_rec(n)[0] != '0',
        dec_val(dec_str_rec(n)) == n,
    decreases n,
{
    if n < 10 {
        assert(n / 10 == 0);
        assert(dec_str_rec(n) =~= Seq::<char>::empty().push(dec_digit(n % 10)));
        assert(dec_str_rec(n).drop_last() =~= Seq::<char>::empty());
        assert(dec_str_rec(n).last() == dec_digit(n % 10));
        assert(dec_val(Seq::<char>::empty()) == 0);
        assert(dec_val(dec_str_rec(n)) == dec_val(dec_str_rec(n).drop_last()) * 10 + digit_val(
            dec_str_rec(n).last(),
        ));
    } else {
        lemma_dec_str_rec_shape(n / 10);
        let s = dec_str_rec(n);
        assert(s =~= dec_str_rec(n / 10).push(dec_digit(n % 10)));
        assert(s.drop_last() =~= dec_str_rec(n / 10));
        assert(s[0] == dec_str_rec(n / 10)[0]);
        assert(digit_val(dec_digit(n % 10)) == n % 10);
        assert(dec_val(s) == (n / 10) * 10 + n % 10);
    }
}

/// The canonical rendering is injective on non-negative numbers.
pub proof fn lemma_dec_str_injective(a: int, b: int)
    requires
        0 <= a,
        0 <= b,
        dec_str(a) == dec_str(b),
    ensures
        a == b,
{
    if a == 0 && b == 0 {
    } else if a == 0 {
        lemma_dec_str_rec_shape(b);
        assert(dec_str(b)[0] != '0');
        assert(dec_str(a)[0] == '0');
    } else if b == 0 {
        lemma_dec_str_rec_shape(a);
        assert(dec_str(a)[0] != '0');
        assert(dec_str(b)[0] == '0');
    } else {
        lemma_dec_str_rec_shape(a);
        lemma_dec_str_rec_shape(b);
        assert(dec_val(dec_str_rec(a)) == a);
        assert(dec_val(dec_str_rec(b)) == b);
    }
}

/// Appends one digit character; trusted wrapper for `String::push`, which
/// vstd does not specify.
#[verifier::external_body]
fn push_char(s: &mut String, c: char)
    ensures
        final(s)@ == old(s)@.push(c),
{
    s.push(c);
}

fn digit_char(d: u64) -> (c: char)
    requires
        d < 10,
    ensures
        c == dec_digit(d as int),
{
    if d == 0 {
        '0'
    } else if d == 1 {
        '1'
    } else if d == 2 {
        '2'
    } else if d == 3 {
        '3'
    } else if d == 4 {
        '4'
    } else if d == 5 {
        '5'
    } else if d == 6 {
        '6'
    } else if d == 7 {
        '7'
    } else if d == 8 {
        '8'
    } else {
        '9'
    }
}

fn append_dec_rec(n: u64, s: &mut String)
    ensures
        final(s)@ == old(s)@ + dec_str_rec(n as int),
    decreases n,
{
    if n > 0 {
        append_dec_rec(n / 10, s);
        push_char(s, digit_char(n % 10));
        assert(final(s)@ =~= old(s)@ + dec_str_rec(n as int));
    } else {
        assert(final(s)@ =~= old(s)@ + dec_str_rec(n as int));
    }
}

/// Renders `n` in canonical decimal.
pub fn u64_to_dec(n: u64) -> (r: String)
    ensures
        r@ == dec_str(n as int),
{
    if n == 0 {
        let r = "0".to_owned();
        proof {
            reveal_strlit("0");
            assert(r@ =~= dec_str(0));
        }
        r
    } else {
        let mut s = String::new();
        append_dec_rec(n, &mut s);
        assert(s@ =~= dec_str(n as int));
        s
    }
}

/// Parses a canonical decimal string; `None` exactly when the input is not
/// `dec_str(n)` for any `n` that fits in a `u64`.
pub fn parse_u64_dec(s: &str) -> (r: Option<u64>)
    ensures
        r matches Some(n) ==> s@ == dec_str(n as int),
        r is None ==> forall|n: int| 0 <= n <= u64::MAX ==> s@ != dec_str(n),
{
    let len = s.unicode_len();
    if len == 0 {
        proof {
            assert forall|n: int| 0 <= n <= u64::MAX implies s@ != dec_str(n) by {
                if n > 0 {
                    lemma_dec_str_rec_shape(n);
                }
            }
        }
        return None;
    }
    let first = s.get_char(0);
    if first == '0' {
        if len == 1 {
            proof {
                assert(s@ =~= dec_str(0));
            }
            return Some(0);
        } else {
            proof {
                assert forall|n: int| 0 <= n <= u64::MAX implies s@ != dec_str(n) by {
                    if n > 0 {
                        lemma_dec_str_rec_shape(n);
                    }
                }
            }
            return None;
        }
    }
    let mut i: usize = 0;
    let mut acc: u64 = 0;
    while i < len
        invariant
            0 < len == s@.len(),
            0 <= i <= len,
            s@[0] != '0',
            i > 0 ==> acc > 0,
            forall|j: int| 0 <= j < i ==> is_dec_digit(#[trigger] s@[j]),
            dec_str_rec(acc as int) =~= s@.take(i as int),
        decreases len - i,
    {
        let c = s.get_char(i);
        let d: u64 = if c == '0' {
            0
        } else if c == '1' {
            1
        } else if c == '2' {
            2
        } else if c == '3' {
            3
        } else if c == '4' {
            4
        } else if c == '5' {
            5
        } else if c == '6' {
            6
        } else if c == '7' {
            7
        } else if c == '8' {
            8
        } else if c == '9' {
            9
        } else {
            proof {
                assert forall|n: int| 0 <= n <= u64::MAX implies s@ != dec_str(n) by {
                    if s@ == dec_str(n) {
                        if n == 0 {
                            assert(s@[0] == '0');
                        } else {
                            lemma_dec_str_rec_shape(n);
                            assert(is_dec_digit(s@[i as int]));
                        }
                    }
                }
            }
            return None;
        };
        if acc > (u64::MAX - d) / 10 {
            proof {
                assert(acc * 10 + d > u64::MAX) by (nonlinear_arith)
                    requires
                        acc > (u64::MAX - d) / 10,
                        0 <= d < 10,
                        0 <= acc,
                ;
                lemma_parse_overflow(s@, acc as int, i as int, d as int);
            }
            return None;
        }
        proof {
            assert(acc * 10 + d <= u64::MAX) by (nonlinear_arith)
                requires
                    acc <= (u64::MAX - d) / 10,
                    0 <= d < 10,
                    0 <= acc,
            ;
        }
        let prev: Ghost<int> = Ghost(acc as int);
        acc = acc * 10 + d;
        proof {
            assert(digit_val(c) == d);
            assert(acc as int == prev@ * 10 + d);
            assert(acc as int > 0) by {
                if i == 0 {
                    assert(c == s@[0]);
                    assert(d > 0);
                } else {
                    assert(prev@ > 0);
                    assert(prev@ * 10 >= 10) by (nonlinear_arith)
                        requires
                            prev@ >= 1,
                    ;
                }
            }
            assert((prev@ * 10 + d) / 10 == prev@ && (prev@ * 10 + d) % 10 == d as int)
                by (nonlinear_arith)
                requires
                    0 <= prev@,
                    0 <= d < 10,
            ;
            assert(dec_str_rec(acc as int) =~= s@.take(i as int + 1)) by {
                assert(dec_str_rec(acc as int) =~= dec_str_rec(prev@).push(dec_digit(d as int)));
                assert(s@.take(i as int + 1) =~= s@.take(i as int).push(s@[i as int]));
                assert(dec_digit(d as int) == c);
            }
        }
        i = i + 1;
    }
    proof {
        assert(s@.take(len as int) =~= s@);
        assert(s@ == dec_str(acc as int));
    }
    Some(acc)
}

/// If a canonical decimal string has a proper prefix denoting `acc`, and the
/// next digit would overflow a `u64`, the whole string denotes no `u64`.
proof fn lemma_parse_overflow(s: Seq<char>, acc: int, i: int, d: int)
    requires
        0 <= i < s.len(),
        s[0] != '0',
        0 <= d < 10,
        digit_val(s[i]) == d,
        acc * 10 + d > u64::MAX,
        dec_str_rec(acc) == s.take(i),
        forall|j: int| 0 <= j < i ==> is_dec_digit(#[trigger] s[j]),
    ensures
        forall|n: int| 0 <= n <= u64::MAX ==> s != dec_str(n),
{
    assert forall|n: int| 0 <= n <= u64::MAX implies s != dec_str(n) by {
        if s == dec_str(n) {
            if n == 0 {
                assert(s[0] == '0');
            } else {
                lemma_dec_str_rec_shape(n);
                assert(dec_val(s) == n);
                lemma_dec_val_prefix_bound(s, i + 1);
                assert(s.take(i + 1) =~= s.take(i).push(s[i]));
                assert(dec_val(s.take(i + 1)) == dec_val(s.take(i)) * 10 + d) by {
                    assert(s.take(i + 1).drop_last() =~= s.take(i));
                    assert(s.take(i + 1).last() == s[i]);
                }
                assert(dec_val(s.take(i)) == acc) by {
                    if acc == 0 {
                        assert(dec_str_rec(acc) =~= Seq::<char>::empty());
                        assert(i == 0);
                    } else {
                        lemma_dec_str_rec_shape(acc);
                    }
                }
            }
        }
    }
}

/// The value of a digit string is at least the value of any of its prefixes.
proof fn lemma_dec_val_prefix_bound(s: Seq<char>, i: int)
    requires
        0 <= i <= s.len(),
        forall|j: int| 0 <= j < s.len() ==> digit_val(#[trigger] s[j]) >= 0,
    ensures
        dec_val(s) >= dec_val(s.take(i)),
        dec_val(s.take(i)) >= 0,
    decreases s.len() - i,
{
    if i == s.len() {
        assert(s.take(i) =~= s);
        lemma_dec_val_nonneg(s);
    } else {
        lemma_dec_val_prefix_bound(s, i + 1);
        assert(s.take(i + 1).drop_last() =~= s.take(i));
        assert(dec_val(s.take(i + 1)) == dec_val(s.take(i)) * 10 + digit_val(s[i]));
        assert(forall|j: int| 0 <= j < s.take(i).len() ==> digit_val(#[trigger] s.take(i)[j]) >= 0);
        lemma_dec_val_nonneg(s.take(i));
        assert(dec_val(s.take(i)) * 10 >= dec_val(s.take(i))) by (nonlinear_arith)
            requires
                dec_val(s.take(i)) >= 0,
        ;
    }
}

proof fn lemma_dec_val_nonneg(s: Seq<char>)
    requires
        forall|j: int| 0 <= j < s.len() ==> digit_val(#[trigger] s[j]) >= 0,
    ensures
        dec_val(s) >= 0,
    decreases s.len(),
{
    if s.len() > 0 {
        lemma_dec_val_nonneg(s.drop_last());
        assert(dec_val(s.drop_last()) * 10 >= 0) by (nonlinear_arith)
            requires
                dec_val(s.drop_last()) >= 0,
        ;
    }
}

} // verus!
