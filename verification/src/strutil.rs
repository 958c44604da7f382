//! Verified string utilities: equality, substring search, and decimal
//! formatting and parsing over `Seq<char>` views.

use vstd::prelude::*;

verus! {

/// Character-wise equality of two string slices.
pub fn str_eq(a: &str, b: &str) -> (r: bool)
    ensures
        r == (a@ == b@),
{
    let alen = a.unicode_len();
    let blen = b.unicode_len();
    if alen != blen {
        return false;
    }
    let mut i: usize = 0;
    while i < alen
        invariant
            alen == a@.len(),
            blen == b@.len(),
            alen == blen,
            i <= alen,
            forall|k: int| 0 <= k < i ==> a@[k] == b@[k],
        decreases alen - i,
    {
        if a.get_char(i) != b.get_char(i) {
            proof {
                assert(a@[i as int] != b@[i as int]);
            }
            return false;
        }
        i += 1;
    }
    proof {
        assert(a@ =~= b@);
    }
    true
}

/// The needle `n` occurs in `h` starting at position `i`.
pub open spec fn has_substring_at(h: Seq<char>, n: Seq<char>, i: int) -> bool {
    0 <= i && i + n.len() <= h.len() && h.subrange(i, i + n.len()) == n
}

/// The needle `n` occurs somewhere in `h`.
pub open spec fn has_substring(h: Seq<char>, n: Seq<char>) -> bool {
    exists|i: int| has_substring_at(h, n, i)
}

/// Substring search, the way the error classifiers need it.
pub fn contains_substr(h: &str, n: &str) -> (r: bool)
    ensures
        r == has_substring(h@, n@),
{
    let hlen = h.unicode_len();
    let nlen = n.unicode_len();
    if nlen == 0 {
        proof {
            assert(h@.subrange(0, 0) =~= n@);
            assert(has_substring_at(h@, n@, 0));
        }
        return true;
    }
    if nlen > hlen {
        proof {
            assert(forall|i: int| !has_substring_at(h@, n@, i));
        }
        return false;
    }
    let mut i: usize = 0;
    while i <= hlen - nlen
        invariant
            hlen == h@.len(),
            nlen == n@.len(),
            1 <= nlen <= hlen,
            i <= hlen - nlen + 1,
            forall|k: int| 0 <= k < i ==> !has_substring_at(h@, n@, k),
        decreases hlen - nlen - i + 1,
    {
        let mut j: usize = 0;
        let mut mismatch = false;
        while j < nlen
            invariant
                hlen == h@.len(),
                nlen == n@.len(),
                i + nlen <= hlen,
                j <= nlen,
                !mismatch ==> forall|k: int| 0 <= k < j ==> h@[i + k] == n@[k],
                mismatch ==> h@.subrange(i as int, i + nlen) != n@,
            decreases nlen - j,
        {
            if h.get_char(i + j) != n.get_char(j) {
                proof {
                    assert(h@.subrange(i as int, i + nlen)[j as int] == h@[i + j]);
                }
                mismatch = true;
                j = nlen;
            } else {
                j += 1;
            }
        }
        if !mismatch {
            proof {
                assert(h@.subrange(i as int, i + nlen) =~= n@);
                assert(has_substring_at(h@, n@, i as int));
            }
            return true;
        }
        i += 1;
    }
    proof {
        assert(forall|k: int| has_substring_at(h@, n@, k) ==> 0 <= k <= hlen - nlen);
    }
    false
}

/// The character for one decimal digit.
pub open spec fn digit_char(d: int) -> char {
    if d == 0 {
        '0'
    } else if d == 1 {
        '1'
    } else if d == 2 {
        '2'
    } else if d == 3 {
        '3'
    } else if d == 4 {
        '4'
    } else if d == 5 {
        '5'
    } else if d == 6 {
        '6'
    } else if d == 7 {
        '7'
    } else if d == 8 {
        '8'
    } else {
        '9'
    }
}

/// Canonical decimal representation of a natural number: no sign, no
/// leading zeroes (a bare `0` for zero).
pub open spec fn spec_udec(n: nat) -> Seq<char>
    decreases n,
{
    if n < 10 {
        seq![digit_char(n as int)]
    } else {
        spec_udec(n / 10) + seq![digit_char((n % 10) as int)]
    }
}

/// Canonical decimal representation of an integer: a `-` sign before the
/// magnitude for negative numbers.
pub open spec fn spec_idec(n: int) -> Seq<char> {
    if n < 0 {
        seq!['-'] + spec_udec((-n) as nat)
    } else {
        spec_udec(n as nat)
    }
}

/// One decimal digit as a string slice.
fn digit_str(d: u64) -> (s: &'static str)
    requires
        d < 10,
    ensures
        s@ =~= seq![digit_char(d as int)],
{
    proof {
        reveal_strlit("0");
        reveal_strlit("1");
        reveal_strlit("2");
        reveal_strlit("3");
        reveal_strlit("4");
        reveal_strlit("5");
        reveal_strlit("6");
        reveal_strlit("7");
        reveal_strlit("8");
        reveal_strlit("9");
    }
    if d == 0 {
        "0"
    } else if d == 1 {
        "1"
    } else if d == 2 {
        "2"
    } else if d == 3 {
        "3"
    } else if d == 4 {
        "4"
    } else if d == 5 {
        "5"
    } else if d == 6 {
        "6"
    } else if d == 7 {
        "7"
    } else if d == 8 {
        "8"
    } else {
        "9"
    }
}

/// Renders an unsigned number in canonical decimal.
pub fn u64_to_string(n: u64) -> (s: String)
    ensures
        s@ == spec_udec(n as nat),
    decreases n,
{
    if n < 10 {
        String::from_str(digit_str(n))
    } else {
        let mut s = u64_to_string(n / 10);
        s.append(digit_str(n % 10));
        proof {
            assert(s@ == spec_udec(n as nat));
        }
        s
    }
}

/// Renders a signed number in canonical decimal.
pub fn i64_to_string(n: i64) -> (s: String)
    ensures
        s@ == spec_idec(n as int),
{
    if n >= 0 {
        u64_to_string(n as u64)
    } else {
        let m: u64 = if n == i64::MIN {
            9223372036854775808u64
        } else {
            (-n) as u64
        };
        proof {
            assert(m as nat == (-(n as int)) as nat);
            reveal_strlit("-");
        }
        let mut s = String::from_str("-");
        let mag = u64_to_string(m);
        s.append(mag.as_str());
        proof {
            assert(s@ =~= seq!['-'] + spec_udec((-(n as int)) as nat));
        }
        s
    }
}

/// Zero-padded two-digit decimal, as in the minute part of a clock reading.
pub open spec fn spec_pad2(n: nat) -> Seq<char> {
    if n < 10 {
        seq!['0'] + spec_udec(n)
    } else {
        spec_udec(n)
    }
}

/// Renders a number below one hundred as exactly two digits.
pub fn pad2_to_string(n: u64) -> (s: String)
    requires
        n < 100,
    ensures
        s@ == spec_pad2(n as nat),
        s@.len() == 2,
{
    proof {
        lemma_udec_wf(n as nat);
        if n >= 10 {
            lemma_udec_wf((n as nat) / 10);
            assert(spec_udec(n as nat) == spec_udec((n as nat) / 10) + seq![
                digit_char(((n as nat) % 10) as int),
            ]);
        }
    }
    let s = if n < 10 {
        proof {
            reveal_strlit("0");
        }
        let mut z = String::from_str("0");
        let d = u64_to_string(n);
        z.append(d.as_str());
        proof {
            assert(z@ =~= seq!['0'] + spec_udec(n as nat));
        }
        z
    } else {
        u64_to_string(n)
    };
    s
}

/// A decimal digit character.
pub open spec fn is_dec_digit(c: char) -> bool {
    48 <= c as int <= 57
}

/// The numeric value of a decimal digit character.
pub open spec fn digit_val(c: char) -> int {
    c as int - 48
}

/// Every character of `s` is a decimal digit.
pub open spec fn all_dec_digits(s: Seq<char>) -> bool {
    forall|i: int| 0 <= i < s.len() ==> is_dec_digit(s[i])
}

/// `s` is the canonical decimal form of some natural number.
pub open spec fn canonical_dec(s: Seq<char>) -> bool {
    &&& s.len() >= 1
    &&& all_dec_digits(s)
    &&& (s.len() > 1 ==> s[0] != '0')
}

/// The numeric value of a digit sequence read most-significant first.
pub open spec fn seq_dec_val(s: Seq<char>) -> nat
    decreases s.len(),
{
    if s.len() == 0 {
        0
    } else {
        (seq_dec_val(s.drop_last()) * 10 + digit_val(s.last())) as nat
    }
}

/// The canonical decimal form of a number is canonical and evaluates back
/// to the number itself.
pub proof fn lemma_udec_wf(n: nat)
    ensures
        canonical_dec(spec_udec(n)),
        n >= 1 ==> spec_udec(n)[0] != '0',
        n < 10 ==> spec_udec(n).len() == 1,
        seq_dec_val(spec_udec(n)) == n,
    decreases n,
{
    if n < 10 {
        assert(spec_udec(n) =~= seq![digit_char(n as int)]);
        assert(spec_udec(n).len() == 1);
        assert(spec_udec(n).last() == digit_char(n as int));
        assert(spec_udec(n).drop_last() =~= Seq::<char>::empty());
        assert(seq_dec_val(Seq::<char>::empty()) == 0);
        assert(digit_val(digit_char(n as int)) == n);
        assert(seq_dec_val(spec_udec(n)) == n);
    } else {
        lemma_udec_wf(n / 10);
        let hd = spec_udec(n / 10);
        let s = spec_udec(n);
        assert(s =~= hd + seq![digit_char((n % 10) as int)]);
        assert(s.drop_last() =~= hd);
        assert(s.last() == digit_char((n % 10) as int));
        assert(digit_val(digit_char((n % 10) as int)) == n % 10);
        assert(s[0] == hd[0]);
        assert(n / 10 >= 1);
        assert(seq_dec_val(s) == (n / 10) * 10 + n % 10);
        assert((n / 10) * 10 + n % 10 == n) by (nonlinear_arith);
    }
}

/// Two different numbers never share a decimal form.
pub proof fn lemma_udec_injective(a: nat, b: nat)
    requires
        spec_udec(a) == spec_udec(b),
    ensures
        a == b,
{
    lemma_udec_wf(a);
    lemma_udec_wf(b);
}

/// A digit sequence with a nonzero leading digit has a nonzero value.
proof fn lemma_dec_val_positive(s: Seq<char>)
    requires
        s.len() >= 1,
        all_dec_digits(s),
        s[0] != '0',
    ensures
        seq_dec_val(s) >= 1,
    decreases s.len(),
{
    if s.len() == 1 {
        assert(is_dec_digit(s[0]));
        assert(s.last() == s[0]);
        assert(s.drop_last() =~= Seq::<char>::empty());
        assert(seq_dec_val(Seq::<char>::empty()) == 0);
        assert(digit_val(s[0]) >= 1);
    } else {
        let hd = s.drop_last();
        assert(is_dec_digit(s[s.len() - 1]));
        assert(hd[0] == s[0]);
        assert(all_dec_digits(hd));
        lemma_dec_val_positive(hd);
        assert(seq_dec_val(hd) * 10 >= 10) by (nonlinear_arith)
            requires
                seq_dec_val(hd) >= 1,
        ;
    }
}

/// A canonical digit sequence is the decimal form of its own value.
pub proof fn lemma_canonical_udec(s: Seq<char>)
    requires
        canonical_dec(s),
    ensures
        spec_udec(seq_dec_val(s)) == s,
    decreases s.len(),
{
    if s.len() == 1 {
        let d = digit_val(s[0]);
        assert(is_dec_digit(s[0]));
        assert(s.last() == s[0]);
        assert(s.drop_last() =~= Seq::<char>::empty());
        assert(seq_dec_val(Seq::<char>::empty()) == 0);
        assert(seq_dec_val(s) == d);
        assert(digit_char(d) == s[0]);
        assert(spec_udec(seq_dec_val(s)) =~= s);
    } else {
        let hd = s.drop_last();
        let d = digit_val(s.last());
        assert(is_dec_digit(s[s.len() - 1]));
        assert(hd[0] == s[0]);
        assert(all_dec_digits(hd));
        lemma_canonical_udec(hd);
        lemma_dec_val_positive(hd);
        let hv = seq_dec_val(hd);
        let v = seq_dec_val(s);
        assert(v == hv * 10 + d);
        assert(hv * 10 + d >= 10) by (nonlinear_arith)
            requires
                hv >= 1 && d >= 0,
        ;
        assert(v / 10 == hv && v % 10 == d) by (nonlinear_arith)
            requires
                v == hv * 10 + d && 0 <= d < 10,
        ;
        assert(digit_char(d) == s.last());
        assert(spec_udec(v) =~= hd + seq![s.last()]);
        assert(hd + seq![s.last()] =~= s);
    }
}

/// Extending a digit sequence never lowers its value.
proof fn lemma_dec_val_prefix_le(s: Seq<char>, k: int)
    requires
        0 <= k <= s.len(),
        all_dec_digits(s),
    ensures
        seq_dec_val(s.take(k)) <= seq_dec_val(s),
    decreases s.len() - k,
{
    if k < s.len() {
        lemma_dec_val_prefix_le(s, k + 1);
        let a = s.take(k);
        let b = s.take(k + 1);
        assert(b.drop_last() =~= a);
        assert(is_dec_digit(s[k]));
        assert(b.last() == s[k]);
        assert(seq_dec_val(b) == seq_dec_val(a) * 10 + digit_val(b.last()));
        assert(seq_dec_val(a) * 10 >= seq_dec_val(a)) by (nonlinear_arith)
            requires
                seq_dec_val(a) >= 0,
        ;
    } else {
        assert(s.take(k) =~= s);
    }
}

/// Parses a canonical decimal string back into a number.  Returns the
/// number exactly when the input is the canonical decimal form of a value
/// that fits; anything else (empty, stray characters, leading zeroes, too
/// large) is refused.
pub fn parse_u64(s: &str) -> (r: Option<u64>)
    ensures
        match r {
            Some(v) => s@ == spec_udec(v as nat),
            None => forall|v: u64| s@ != spec_udec(v as nat),
        },
{
    let len = s.unicode_len();
    if len == 0 {
        proof {
            assert forall|v: u64| s@ != spec_udec(v as nat) by {
                lemma_udec_wf(v as nat);
            }
        }
        return None;
    }
    let c0 = s.get_char(0);
    if len > 1 && c0 == '0' {
        proof {
            assert forall|v: u64| s@ != spec_udec(v as nat) by {
                lemma_udec_wf(v as nat);
            }
        }
        return None;
    }
    let mut v: u64 = 0;
    let mut i: usize = 0;
    while i < len
        invariant
            len == s@.len(),
            len >= 1,
            len > 1 ==> s@[0] != '0',
            i <= len,
            all_dec_digits(s@.take(i as int)),
            v == seq_dec_val(s@.take(i as int)),
        decreases len - i,
    {
        let c = s.get_char(i);
        let cv = c as u32;
        if cv < 48 || cv > 57 {
            proof {
                assert(!is_dec_digit(s@[i as int]));
                assert forall|u: u64| s@ != spec_udec(u as nat) by {
                    lemma_udec_wf(u as nat);
                }
            }
            return None;
        }
        let d: u64 = (cv - 48) as u64;
        if v > (0xffff_ffff_ffff_ffffu64 - d) / 10 {
            proof {
                let t = s@.take(i + 1);
                assert(t.drop_last() =~= s@.take(i as int));
                assert(t.last() == s@[i as int]);
                assert(seq_dec_val(t) == v * 10 + d);
                assert(v * 10 + d > 0xffff_ffff_ffff_ffffu64) by (nonlinear_arith)
                    requires
                        v > (0xffff_ffff_ffff_ffffu64 - d) / 10 && 0 <= d < 10
                            && v <= 0xffff_ffff_ffff_ffffu64,
                ;
                assert(all_dec_digits(t));
                assert forall|u: u64| s@ != spec_udec(u as nat) by {
                    lemma_udec_wf(u as nat);
                    if s@ == spec_udec(u as nat) {
                        lemma_dec_val_prefix_le(s@, i + 1);
                        assert(seq_dec_val(s@) == u as nat);
                        assert(seq_dec_val(s@) >= seq_dec_val(t));
                    }
                }
            }
            return None;
        }
        proof {
            let t = s@.take(i + 1);
            assert(t.drop_last() =~= s@.take(i as int));
            assert(t.last() == s@[i as int]);
            assert(v * 10 + d <= 0xffff_ffff_ffff_ffffu64) by (nonlinear_arith)
                requires
                    v <= (0xffff_ffff_ffff_ffffu64 - d) / 10 && 0 <= d < 10,
            ;
        }
        v = v * 10 + d;
        i += 1;
    }
    proof {
        assert(s@.take(len as int) =~= s@);
        assert(canonical_dec(s@));
        lemma_canonical_udec(s@);
    }
    Some(v)
}

/// No decimal form of a natural number begins with a sign.
proof fn lemma_udec_no_sign(n: nat)
    ensures
        spec_udec(n).len() >= 1,
        spec_udec(n)[0] != '-',
{
    lemma_udec_wf(n);
    assert(is_dec_digit(spec_udec(n)[0]));
}

/// Parses a canonical signed decimal string.  Accepts exactly the strings
/// that `spec_idec` produces for values in range.
pub fn parse_i64(s: &str) -> (r: Option<i64>)
    ensures
        match r {
            Some(v) => s@ == spec_idec(v as int),
            None => forall|v: i64| s@ != spec_idec(v as int),
        },
{
    let len = s.unicode_len();
    if len == 0 {
        proof {
            assert forall|v: i64| s@ != spec_idec(v as int) by {
                if v >= 0 {
                    lemma_udec_wf(v as nat);
                } else {
                    lemma_udec_wf((-(v as int)) as nat);
                }
            }
        }
        return None;
    }
    if s.get_char(0) == '-' {
        let rest = s.substring_char(1, len);
        proof {
            assert(rest@ == s@.subrange(1, len as int));
        }
        let m_opt = parse_u64(rest);
        proof {
            assert forall|v: i64| v < 0 && s@ == spec_idec(v as int) implies rest@ == spec_udec(
                (-(v as int)) as nat,
            ) by {
                let mag = spec_udec((-(v as int)) as nat);
                assert(s@ == seq!['-'] + mag);
                lemma_udec_wf((-(v as int)) as nat);
                assert(rest@ =~= mag);
            }
        }
        match m_opt {
            Some(m) => {
                if m == 0 {
                    proof {
                        assert forall|v: i64| s@ != spec_idec(v as int) by {
                            if v >= 0 {
                                lemma_udec_no_sign(v as nat);
                                assert(s@[0] == '-');
                            } else if s@ == spec_idec(v as int) {
                                assert(rest@ == spec_udec((-(v as int)) as nat));
                                lemma_udec_injective(0, (-(v as int)) as nat);
                            }
                        }
                    }
                    None
                } else if m <= 9223372036854775807u64 {
                    let v: i64 = -(m as i64);
                    proof {
                        assert(s@ =~= seq!['-'] + rest@);
                    }
                    Some(v)
                } else if m == 9223372036854775808u64 {
                    proof {
                        assert(s@ =~= seq!['-'] + rest@);
                    }
                    Some(i64::MIN)
                } else {
                    proof {
                        assert forall|v: i64| s@ != spec_idec(v as int) by {
                            if v >= 0 {
                                lemma_udec_no_sign(v as nat);
                                assert(s@[0] == '-');
                            } else if s@ == spec_idec(v as int) {
                                assert(rest@ == spec_udec((-(v as int)) as nat));
                                lemma_udec_injective(m as nat, (-(v as int)) as nat);
                            }
                        }
                    }
                    None
                }
            },
            None => {
                proof {
                    assert forall|v: i64| s@ != spec_idec(v as int) by {
                        if v >= 0 {
                            lemma_udec_no_sign(v as nat);
                            assert(s@[0] == '-');
                        } else if s@ == spec_idec(v as int) {
                            assert(rest@ == spec_udec((-(v as int)) as nat));
                            let u: u64 = (-(v as int)) as u64;
                            assert(rest@ == spec_udec(u as nat));
                        }
                    }
                }
                None
            },
        }
    } else {
        let m_opt = parse_u64(s);
        proof {
            assert(s@[0] != '-');
        }
        match m_opt {
            Some(m) => {
                if m <= 9223372036854775807u64 {
                    Some(m as i64)
                } else {
                    proof {
                        assert forall|v: i64| s@ != spec_idec(v as int) by {
                            if v >= 0 && s@ == spec_idec(v as int) {
                                lemma_udec_injective(m as nat, v as nat);
                            } else if v < 0 {
                                lemma_udec_wf((-(v as int)) as nat);
                                if s@ == spec_idec(v as int) {
                                    assert(s@[0] == '-');
                                }
                            }
                        }
                    }
                    None
                }
            },
            None => {
                proof {
                    assert forall|v: i64| s@ != spec_idec(v as int) by {
                        if v >= 0 {
                            assert(spec_idec(v as int) == spec_udec(v as nat));
                            assert(s@ != spec_udec((v as u64) as nat));
                        } else {
                            lemma_udec_wf((-(v as int)) as nat);
                            if s@ == spec_idec(v as int) {
                                assert(s@[0] == '-');
                            }
                        }
                    }
                }
                None
            },
        }
    }
}

} // verus!
