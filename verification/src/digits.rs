//! Decimal rendering and parsing of account identifiers.
//!
//! A session token carries its subject as a string; an account identifier is
//! an unsigned integer. This module renders an identifier in canonical
//! decimal (no sign, no leading zeros) and parses a subject string back,
//! accepting exactly the canonical renderings of values that fit in `u64`.

use vstd::prelude::*;

verus! {

/// The character for a single decimal digit value.
pub open spec fn digit_char(d: nat) -> char {
    if d == 0 {
        '0'
    } else if d == 1 {
        '1'
    } else if d == 2 {
        '2'
    } else if d == 3 {
        '3'
    } else if d == 4 {
        '4'
    } else if d == 5 {
        '5'
    } else if d == 6 {
        '6'
    } else if d == 7 {
        '7'
    } else if d == 8 {
        '8'
    } else {
        '9'
    }
}

/// The digit value of a character, or -1 if it is not a decimal digit.
pub open spec fn char_digit(c: char) -> int {
    if c == '0' {
        0
    } else if c == '1' {
        1
    } else if c == '2' {
        2
    } else if c == '3' {
        3
    } else if c == '4' {
        4
    } else if c == '5' {
        5
    } else if c == '6' {
        6
    } else if c == '7' {
        7
    } else if c == '8' {
        8
    } else if c == '9' {
        9
    } else {
        -1
    }
}

pub open spec fn is_digit(c: char) -> bool {
    char_digit(c) >= 0
}

/// Canonical decimal rendering of a natural number.
pub open spec fn dec_str(n: nat) -> Seq<char>
    decreases n,
{
    if n < 10 {
        seq![digit_char(n)]
    } else {
        dec_str(n / 10).push(digit_char(n % 10))
    }
}

/// A canonical decimal string: nonempty, digits only, and no leading zero
/// except for "0" itself.
pub open spec fn canonical_dec(s: Seq<char>) -> bool {
    &&& s.len() >= 1
    &&& forall|j: int| 0 <= j < s.len() ==> is_digit(#[trigger] s[j])
    &&& (s[0] != '0' || s.len() == 1)
}

/// The value of a digit string, most significant digit first.
pub open spec fn val_of(s: Seq<char>) -> nat
    decreases s.len(),
{
    if s.len() == 0 {
        0
    } else {
        val_of(s.drop_last()) * 10 + (if char_digit(s.last()) >= 0 {
            char_digit(s.last()) as nat
        } else {
            0
        })
    }
}

/// A rendering is canonical and evaluates back to the number rendered.
pub proof fn lemma_dec_str_canonical(n: nat)
    ensures
        canonical_dec(dec_str(n)),
        val_of(dec_str(n)) == n,
        dec_str(n)[0] != '0' || n == 0,
    decreases n,
{
    if n < 10 {
        let s = dec_str(n);
        assert(s == seq![digit_char(n)]);
        assert(s.len() == 1 && s.last() == digit_char(n));
        assert(s.drop_last() =~= Seq::<char>::empty());
        assert(val_of(s.drop_last()) == 0);
        assert(char_digit(digit_char(n)) == n);
        assert(val_of(s) == 0 * 10 + char_digit(s.last()));
    } else {
        lemma_dec_str_canonical(n / 10);
        let p = dec_str(n / 10);
        let s = dec_str(n);
        assert(s == p.push(digit_char(n % 10)));
        assert(s.drop_last() =~= p);
        assert(s.last() == digit_char(n % 10));
        assert(char_digit(digit_char(n % 10)) == n % 10);
        assert(val_of(s) == (n / 10) * 10 + n % 10);
        assert((n / 10) * 10 + n % 10 == n) by (nonlinear_arith);
        assert(n / 10 >= 1);
        assert(p[0] != '0');
        assert(forall|j: int| 0 <= j < s.len() ==> is_digit(#[trigger] s[j]));
    }
}

/// Two numbers with the same rendering are equal.
pub proof fn lemma_dec_str_injective(a: nat, b: nat)
    requires
        dec_str(a) == dec_str(b),
    ensures
        a == b,
{
    lemma_dec_str_canonical(a);
    lemma_dec_str_canonical(b);
}

/// A canonical digit string is the rendering of its own value.
pub proof fn lemma_canonical_round_trip(s: Seq<char>)
    requires
        canonical_dec(s),
    ensures
        dec_str(val_of(s)) == s,
    decreases s.len(),
{
    if s.len() == 1 {
        let d = char_digit(s[0]);
        assert(s.last() == s[0] && is_digit(s[0]));
        assert(s.drop_last() =~= Seq::<char>::empty());
        assert(val_of(s.drop_last()) == 0);
        assert(val_of(s) == 0 * 10 + char_digit(s.last()));
        assert(val_of(s) == d);
        assert(digit_char(d as nat) == s[0]);
        assert(dec_str(val_of(s)) =~= s);
    } else {
        let p = s.drop_last();
        assert(p[0] == s[0]);
        assert(forall|j: int| 0 <= j < p.len() ==> is_digit(#[trigger] p[j])) by {
            assert(forall|j: int| 0 <= j < p.len() ==> p[j] == s[j] && is_digit(#[trigger] s[j]));
        }
        assert(canonical_dec(p));
        lemma_canonical_round_trip(p);
        lemma_val_of_positive(p);
        let d = char_digit(s.last()) as nat;
        assert(val_of(s) == val_of(p) * 10 + d);
        assert(val_of(p) * 10 >= 10) by (nonlinear_arith)
            requires
                val_of(p) >= 1,
        ;
        assert((val_of(p) * 10 + d) / 10 == val_of(p) && (val_of(p) * 10 + d) % 10 == d)
            by (nonlinear_arith)
            requires
                d < 10,
        ;
        assert(dec_str(val_of(s)) == dec_str(val_of(p)).push(digit_char(d)));
        assert(digit_char(d) == s.last());
        assert(p.push(s.last()) =~= s);
    }
}

/// A canonical string whose first digit is not '0' has a positive value.
proof fn lemma_val_of_positive(s: Seq<char>)
    requires
        canonical_dec(s),
        s[0] != '0',
    ensures
        val_of(s) >= 1,
    decreases s.len(),
{
    if s.len() == 1 {
        assert(char_digit(s[0]) >= 1);
    } else {
        let p = s.drop_last();
        assert(p[0] == s[0]);
        assert(forall|j: int| 0 <= j < p.len() ==> is_digit(#[trigger] p[j])) by {
            assert(forall|j: int| 0 <= j < p.len() ==> p[j] == s[j] && is_digit(#[trigger] s[j]));
        }
        lemma_val_of_positive(p);
        assert(val_of(p) * 10 >= 10) by (nonlinear_arith)
            requires
                val_of(p) >= 1,
        ;
    }
}

/// Growing a digit string never shrinks its value.
proof fn lemma_val_of_prefix(s: Seq<char>, k: int)
    requires
        0 <= k <= s.len(),
        forall|j: int| 0 <= j < s.len() ==> is_digit(#[trigger] s[j]),
    ensures
        val_of(s.take(k)) <= val_of(s),
    decreases s.len() - k,
{
    if k < s.len() {
        lemma_val_of_prefix(s, k + 1);
        let t = s.take(k + 1);
        assert(t.drop_last() =~= s.take(k));
        assert(t.last() == s[k]);
        assert(val_of(t) == val_of(s.take(k)) * 10 + char_digit(s[k]));
        assert(val_of(s.take(k)) * 10 >= val_of(s.take(k))) by (nonlinear_arith);
    } else {
        assert(s.take(k) =~= s);
    }
}

/// Renders `n % 10`'s digit onto the end of `out`.
fn push_digit(d: u64, out: &mut String)
    requires
        d < 10,
    ensures
        final(out)@ == old(out)@ + seq![digit_char(d as nat)],
{
    proof {
        reveal_strlit("0");
        reveal_strlit("1");
        reveal_strlit("2");
        reveal_strlit("3");
        reveal_strlit("4");
        reveal_strlit("5");
        reveal_strlit("6");
        reveal_strlit("7");
        reveal_strlit("8");
        reveal_strlit("9");
    }
    match d {
        0 => out.append("0"),
        1 => out.append("1"),
        2 => out.append("2"),
        3 => out.append("3"),
        4 => out.append("4"),
        5 => out.append("5"),
        6 => out.append("6"),
        7 => out.append("7"),
        8 => out.append("8"),
        _ => out.append("9"),
    }
    proof {
        assert(out@ =~= old(out)@ + seq![digit_char(d as nat)]);
    }
}

fn push_dec(n: u64, out: &mut String)
    ensures
        final(out)@ == old(out)@ + dec_str(n as nat),
    decreases n,
{
    if n >= 10 {
        push_dec(n / 10, out);
    }
    push_digit(n % 10, out);
    proof {
        if n >= 10 {
            assert(dec_str(n as nat) == dec_str(n as nat / 10).push(digit_char(n as nat % 10)));
            assert(n as nat / 10 == (n / 10) as nat);
            assert(out@ =~= old(out)@ + dec_str(n as nat));
        } else {
            assert(dec_str(n as nat) == seq![digit_char(n as nat)]);
            assert(out@ =~= old(out)@ + dec_str(n as nat));
        }
    }
}

/// The canonical decimal rendering of an identifier.
pub fn u64_to_dec(n: u64) -> (s: String)
    ensures
        s@ == dec_str(n as nat),
{
    let mut s = String::new();
    push_dec(n, &mut s);
    s
}

/// The digit value of a character, or `None` for a non-digit.
fn char_digit_exec(c: char) -> (r: Option<u64>)
    ensures
        match r {
            Some(d) => char_digit(c) == d && d < 10,
            None => !is_digit(c),
        },
{
    match c {
        '0' => Some(0),
        '1' => Some(1),
        '2' => Some(2),
        '3' => Some(3),
        '4' => Some(4),
        '5' => Some(5),
        '6' => Some(6),
        '7' => Some(7),
        '8' => Some(8),
        '9' => Some(9),
        _ => None,
    }
}

/// Parses a canonical decimal string back to the identifier it renders.
///
/// Accepts exactly the strings produced by [`u64_to_dec`]: `Some(v)` is
/// returned if and only if the input is the canonical rendering of `v`.
pub fn dec_to_u64(s: &str) -> (r: Option<u64>)
    ensures
        forall|v: u64| s@ == dec_str(v as nat) ==> r == Some(v),
        r matches Some(v) ==> s@ == dec_str(v as nat),
{
    let len = s.unicode_len();
    if len == 0 {
        proof {
            assert forall|v: u64| s@ != dec_str(v as nat) by {
                lemma_dec_str_canonical(v as nat);
            }
        }
        return None;
    }
    if len > 1 && s.get_char(0) == '0' {
        proof {
            assert forall|v: u64| s@ != dec_str(v as nat) by {
                lemma_dec_str_canonical(v as nat);
            }
        }
        return None;
    }
    let mut acc: u64 = 0;
    let mut i: usize = 0;
    while i < len
        invariant
            0 < len == s@.len(),
            0 <= i <= len,
            len > 1 ==> s@[0] != '0',
            forall|j: int| 0 <= j < i ==> is_digit(#[trigger] s@[j]),
            acc == val_of(s@.take(i as int)),
        decreases len - i,
    {
        let c = s.get_char(i);
        let d = match char_digit_exec(c) {
            Some(d) => d,
            None => {
                proof {
                    assert forall|v: u64| s@ != dec_str(v as nat) by {
                        lemma_dec_str_canonical(v as nat);
                        if s@ == dec_str(v as nat) {
                            assert(is_digit(s@[i as int]));
                        }
                    }
                }
                return None;
            },
        };
        if acc > (u64::MAX - d) / 10 {
            proof {
                assert(acc * 10 + d > u64::MAX) by (nonlinear_arith)
                    requires
                        acc > (u64::MAX - d) / 10,
                        d < 10,
                ;
                let t = s@.take(i as int + 1);
                assert(t.drop_last() =~= s@.take(i as int));
                assert(t.last() == s@[i as int]);
                assert(val_of(t) == acc * 10 + d);
                assert forall|v: u64| s@ != dec_str(v as nat) by {
                    lemma_dec_str_canonical(v as nat);
                    if s@ == dec_str(v as nat) {
                        lemma_val_of_prefix(s@, i as int + 1);
                        assert(val_of(s@) == v as nat);
                    }
                }
            }
            return None;
        }
        proof {
            assert(acc * 10 + d <= u64::MAX) by (nonlinear_arith)
                requires
                    acc <= (u64::MAX - d) / 10,
                    d < 10,
            ;
            let t = s@.take(i as int + 1);
            assert(t.drop_last() =~= s@.take(i as int));
            assert(t.last() == s@[i as int]);
            assert(val_of(t) == acc * 10 + d);
        }
        acc = acc * 10 + d;
        i = i + 1;
    }
    proof {
        assert(s@.take(len as int) =~= s@);
        assert(canonical_dec(s@));
        lemma_canonical_round_trip(s@);
        assert forall|v: u64| s@ == dec_str(v as nat) implies Some(acc) == Some(v) by {
            lemma_dec_str_canonical(v as nat);
        }
    }
    Some(acc)
}

} // verus!
