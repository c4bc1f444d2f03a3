//! Primitives of the textual record format: decimal numbers, escaped string
//! bodies and literal tokens, each with a specification-level form, an
//! executable form proved against it, and round-trip lemmas.

use vstd::prelude::*;

use crate::text::{
    chars_of_str, digit_char, digit_char_exec, digit_val, digit_val_exec, is_digit, is_digit_exec,
    lemma_digit_char_val,
};

verus! {

// ---------------------------------------------------------------------------
// Decimal numbers
// ---------------------------------------------------------------------------
/// Ten to the `k`.
pub open spec fn pow10(k: nat) -> nat
    decreases k,
{
    if k == 0 {
        1
    } else {
        10 * pow10((k - 1) as nat)
    }
}

/// The decimal digits of `n`, most significant first.
pub open spec fn ser_nat(n: nat) -> Seq<char>
    decreases n,
{
    if n < 10 {
        seq![digit_char(n)]
    } else {
        proof {
            assert(n / 10 < n) by (nonlinear_arith)
                requires
                    n >= 10,
            ;
        }
        ser_nat(n / 10).push(digit_char(n % 10))
    }
}

/// Whether every character of `d` is a decimal digit.
pub open spec fn all_digits(d: Seq<char>) -> bool {
    forall|j: int| 0 <= j < d.len() ==> is_digit(d[j])
}

/// The value of a sequence of decimal digits, most significant first.
pub open spec fn digits_val(d: Seq<char>) -> nat
    decreases d.len(),
{
    if d.len() == 0 {
        0
    } else {
        digits_val(d.drop_last()) * 10 + digit_val(d.last())
    }
}

/// `ser_nat` emits at least one digit, only digits, with value `n`, and
/// never a leading zero unless `n` is zero.
pub proof fn lemma_ser_nat_props(n: nat)
    ensures
        ser_nat(n).len() >= 1,
        all_digits(ser_nat(n)),
        digits_val(ser_nat(n)) == n,
    decreases n,
{
    if n < 10 {
        lemma_digit_char_val(n);
        assert(ser_nat(n) == seq![digit_char(n)]);
        assert(ser_nat(n).len() == 1);
        assert(ser_nat(n).last() == digit_char(n));
        assert(ser_nat(n).drop_last() =~= Seq::<char>::empty());
        assert(digits_val(Seq::<char>::empty()) == 0);
        assert(digits_val(ser_nat(n)) == 0 * 10 + digit_val(digit_char(n)));
    } else {
        assert(n / 10 < n) by (nonlinear_arith)
            requires
                n >= 10,
        ;
        lemma_ser_nat_props(n / 10);
        let d = digit_char(n % 10);
        assert(ser_nat(n) == ser_nat(n / 10).push(d));
        assert(ser_nat(n).drop_last() =~= ser_nat(n / 10));
        assert(ser_nat(n).last() == d);
        assert(n % 10 < 10) by (nonlinear_arith);
        lemma_digit_char_val(n % 10);
        assert(digit_val(d) == n % 10);
        assert(digits_val(ser_nat(n)) == (n / 10) * 10 + n % 10);
        assert((n / 10) * 10 + n % 10 == n) by (nonlinear_arith);
        assert forall|j: int| 0 <= j < ser_nat(n).len() implies is_digit(ser_nat(n)[j]) by {
            if j < ser_nat(n / 10).len() {
                assert(ser_nat(n)[j] == ser_nat(n / 10)[j]);
            } else {
                assert(ser_nat(n)[j] == d);
            }
        }
    }
}

/// Peeling the most significant digit off a digit sequence.
proof fn lemma_digits_val_cons(c: char, d: Seq<char>)
    ensures
        digits_val(seq![c] + d) == digit_val(c) * pow10(d.len()) + digits_val(d),
    decreases d.len(),
{
    if d.len() == 0 {
        assert(seq![c] + d =~= seq![c]);
        assert((seq![c]).len() == 1);
        assert((seq![c]).last() == c);
        assert((seq![c]).drop_last() =~= Seq::<char>::empty());
        assert(digits_val(Seq::<char>::empty()) == 0);
        assert(digits_val(seq![c]) == 0 * 10 + digit_val(c));
        assert(pow10(0) == 1);
        assert(digits_val(d) == 0);
        assert(digit_val(c) * 1 == digit_val(c)) by (nonlinear_arith);
    } else {
        let e = seq![c] + d;
        assert(e.drop_last() =~= seq![c] + d.drop_last());
        assert(e.last() == d.last());
        lemma_digits_val_cons(c, d.drop_last());
        let k = (d.len() - 1) as nat;
        let a = digit_val(c);
        let b = digits_val(d.drop_last());
        let v = digit_val(d.last());
        assert(digits_val(e) == (a * pow10(k) + b) * 10 + v);
        assert(pow10(d.len()) == 10 * pow10(k));
        assert((a * pow10(k) + b) * 10 + v == a * (10 * pow10(k)) + (b * 10 + v))
            by (nonlinear_arith);
        assert(digits_val(d) == b * 10 + v);
    }
}

/// Greedy digit accumulation, as a total function: consumes the maximal run
/// of digits starting at `i`, folding them onto `acc`.
pub open spec fn parse_nat_loop(s: Seq<char>, i: int, acc: nat) -> (nat, int)
    decreases s.len() - i,
{
    if 0 <= i < s.len() && is_digit(s[i]) {
        parse_nat_loop(s, i + 1, acc * 10 + digit_val(s[i]))
    } else {
        (acc, i)
    }
}

/// Reads a decimal number at `i`: at least one digit, greedily.
pub open spec fn parse_nat(s: Seq<char>, i: int) -> Option<(nat, int)> {
    if 0 <= i < s.len() && is_digit(s[i]) {
        Some(parse_nat_loop(s, i, 0))
    } else {
        None
    }
}

/// The accumulated value never shrinks.
pub proof fn lemma_parse_nat_loop_lower(s: Seq<char>, i: int, acc: nat)
    ensures
        parse_nat_loop(s, i, acc).0 >= acc,
        i <= parse_nat_loop(s, i, acc).1,
        parse_nat_loop(s, i, acc).1 <= s.len() || parse_nat_loop(s, i, acc).1 == i,
    decreases s.len() - i,
{
    if 0 <= i < s.len() && is_digit(s[i]) {
        let acc2 = acc * 10 + digit_val(s[i]);
        assert(acc2 >= acc) by (nonlinear_arith)
            requires
                acc2 == acc * 10 + digit_val(s[i]),
        ;
        lemma_parse_nat_loop_lower(s, i + 1, acc2);
    }
}

/// Running the greedy loop over a known digit run `d` followed by a
/// non-digit (or the end) yields exactly the folded value.
proof fn lemma_parse_nat_loop_run(s: Seq<char>, i: int, d: Seq<char>, acc: nat)
    requires
        0 <= i,
        i + d.len() <= s.len(),
        s.subrange(i, i + d.len()) == d,
        all_digits(d),
        i + d.len() == s.len() || !is_digit(s[i + d.len()]),
    ensures
        parse_nat_loop(s, i, acc) == (acc * pow10(d.len()) + digits_val(d), i + d.len()),
    decreases d.len(),
{
    if d.len() == 0 {
        assert(parse_nat_loop(s, i, acc) == (acc, i));
        assert(pow10(0) == 1);
        assert(digits_val(d) == 0);
        assert(acc * pow10(d.len()) == acc) by (nonlinear_arith)
            requires
                pow10(d.len()) == 1,
        ;
    } else {
        assert(s[i] == d[0]) by {
            assert(s.subrange(i, i + d.len())[0] == s[i]);
        }
        assert(is_digit(d[0]));
        let acc2 = acc * 10 + digit_val(d[0]);
        let d2 = d.skip(1);
        assert(s.subrange(i + 1, i + 1 + d2.len()) =~= d2) by {
            assert forall|j: int| 0 <= j < d2.len() implies s.subrange(i + 1, i + 1 + d2.len())[j]
                == d2[j] by {
                assert(s.subrange(i + 1, i + 1 + d2.len())[j] == s[i + 1 + j]);
                assert(d2[j] == d[j + 1]);
                assert(s.subrange(i, i + d.len())[j + 1] == s[i + j + 1]);
            }
        }
        assert(all_digits(d2)) by {
            assert forall|j: int| 0 <= j < d2.len() implies is_digit(d2[j]) by {
                assert(d2[j] == d[j + 1]);
            }
        }
        lemma_parse_nat_loop_run(s, i + 1, d2, acc2);
        lemma_digits_val_cons(d[0], d2);
        assert(d =~= seq![d[0]] + d2);
        let k = d2.len();
        let a = digit_val(d[0]);
        assert(pow10(d.len()) == 10 * pow10(k));
        assert((acc * 10 + a) * pow10(k) + digits_val(d2) == acc * (10 * pow10(k)) + (a * pow10(k)
            + digits_val(d2))) by (nonlinear_arith);
    }
}

/// Round trip for numbers: a serialized number followed by a non-digit
/// parses back to itself.
pub proof fn lemma_parse_nat_round_trip(prefix: Seq<char>, n: nat, suffix: Seq<char>)
    requires
        suffix.len() == 0 || !is_digit(suffix[0]),
    ensures
        parse_nat(prefix + ser_nat(n) + suffix, prefix.len() as int) == Some(
            (n, prefix.len() + ser_nat(n).len() as int),
        ),
{
    let s = prefix + ser_nat(n) + suffix;
    let i = prefix.len() as int;
    lemma_ser_nat_props(n);
    let d = ser_nat(n);
    assert(s.subrange(i, i + d.len()) =~= d) by {
        assert forall|j: int| 0 <= j < d.len() implies s.subrange(i, i + d.len())[j] == d[j] by {
            assert(s[i + j] == d[j]);
        }
    }
    assert(s[i] == d[0]);
    assert(is_digit(s[i]));
    if i + d.len() < s.len() {
        assert(s[i + d.len()] == suffix[0]);
    }
    lemma_parse_nat_loop_run(s, i, d, 0);
    assert(0 * pow10(d.len()) == 0) by (nonlinear_arith);
}

/// Writes `n` in decimal onto `out`.
pub fn ser_nat_exec(out: &mut Vec<char>, n: u64)
    ensures
        final(out)@ == old(out)@ + ser_nat(n as nat),
    decreases n,
{
    if n < 10 {
        out.push(digit_char_exec(n));
        proof {
            assert(final(out)@ =~= old(out)@ + ser_nat(n as nat));
        }
    } else {
        ser_nat_exec(out, n / 10);
        out.push(digit_char_exec(n % 10));
        proof {
            assert(ser_nat(n as nat) == ser_nat((n / 10) as nat).push(digit_char((n % 10) as nat)));
            assert(final(out)@ =~= old(out)@ + ser_nat(n as nat));
        }
    }
}

/// Reads a decimal number at `i`, within `u64` range; fails exactly when the
/// specification-level parse fails or the value exceeds `u64::MAX`.
pub fn parse_u64_exec(s: &Vec<char>, i: usize) -> (r: Option<(u64, usize)>)
    requires
        i <= s@.len(),
    ensures
        match parse_nat(s@, i as int) {
            Some(p) => {
                if p.0 <= u64::MAX {
                    r matches Some(q) && q.0 == p.0 && q.1 == p.1
                } else {
                    r is None
                }
            },
            None => r is None,
        },
{
    if i >= s.len() || !is_digit_exec(s[i]) {
        return None;
    }
    let mut acc: u64 = 0;
    let mut j: usize = i;
    while j < s.len() && is_digit_exec(s[j])
        invariant
            i <= j <= s@.len(),
            parse_nat_loop(s@, i as int, 0) == parse_nat_loop(s@, j as int, acc as nat),
        decreases s@.len() - j,
    {
        let d = digit_val_exec(s[j]);
        if acc > (u64::MAX - d as u64) / 10 {
            proof {
                let acc2: nat = acc as nat * 10 + digit_val(s@[j as int]);
                assert(acc2 > u64::MAX) by (nonlinear_arith)
                    requires
                        acc > (u64::MAX - digit_val(s@[j as int])) / 10,
                        acc2 == acc as nat * 10 + digit_val(s@[j as int]),
                        digit_val(s@[j as int]) < 10,
                ;
                lemma_parse_nat_loop_lower(s@, j as int + 1, acc2);
                assert(parse_nat_loop(s@, j as int, acc as nat) == parse_nat_loop(
                    s@,
                    j as int + 1,
                    acc2,
                ));
            }
            return None;
        }
        proof {
            assert(acc as nat * 10 + digit_val(s@[j as int]) <= u64::MAX) by (nonlinear_arith)
                requires
                    acc <= (u64::MAX - digit_val(s@[j as int])) / 10,
                    digit_val(s@[j as int]) < 10,
            ;
        }
        acc = acc * 10 + d as u64;
        j += 1;
    }
    Some((acc, j))
}

// ---------------------------------------------------------------------------
// Escaped string bodies
// ---------------------------------------------------------------------------
/// How one character is written inside a quoted string: quotes and
/// backslashes get a backslash escape, everything else stands as itself.
pub open spec fn esc_char(c: char) -> Seq<char> {
    if c == '"' || c == '\\' {
        seq!['\\', c]
    } else {
        seq![c]
    }
}

/// The escaped body of a quoted string.
pub open spec fn ser_escaped(s: Seq<char>) -> Seq<char>
    decreases s.len(),
{
    if s.len() == 0 {
        Seq::empty()
    } else {
        esc_char(s[0]) + ser_escaped(s.skip(1))
    }
}

/// Reads a string body up to and over its closing quote; the only escapes
/// accepted are `\"` and `\\`.
pub open spec fn parse_string_body(s: Seq<char>, i: int) -> Option<(Seq<char>, int)>
    decreases s.len() - i,
{
    if i < 0 || i >= s.len() {
        None
    } else if s[i] == '"' {
        Some((Seq::empty(), i + 1))
    } else if s[i] == '\\' {
        if i + 1 < s.len() && (s[i + 1] == '"' || s[i + 1] == '\\') {
            match parse_string_body(s, i + 2) {
                Some((t, j)) => Some((seq![s[i + 1]] + t, j)),
                None => None,
            }
        } else {
            None
        }
    } else {
        match parse_string_body(s, i + 1) {
            Some((t, j)) => Some((seq![s[i]] + t, j)),
            None => None,
        }
    }
}

/// A successful string-body parse always advances past `i` and stays within
/// the input.
pub proof fn lemma_parse_string_body_advances(s: Seq<char>, i: int)
    requires
        parse_string_body(s, i) is Some,
    ensures
        i < parse_string_body(s, i).unwrap().1 <= s.len(),
    decreases s.len() - i,
{
    if s[i] == '"' {
    } else if s[i] == '\\' {
        lemma_parse_string_body_advances(s, i + 2);
    } else {
        lemma_parse_string_body_advances(s, i + 1);
    }
}

/// Round trip for string bodies: an escaped body plus closing quote parses
/// back to the original content.
pub proof fn lemma_parse_string_body_round_trip(prefix: Seq<char>, content: Seq<char>, suffix: Seq<char>)
    ensures
        parse_string_body(prefix + ser_escaped(content) + seq!['"'] + suffix, prefix.len() as int)
            == Some((content, prefix.len() as int + ser_escaped(content).len() + 1)),
    decreases content.len(),
{
    let s = prefix + ser_escaped(content) + seq!['"'] + suffix;
    let i = prefix.len() as int;
    if content.len() == 0 {
        assert(ser_escaped(content) =~= Seq::<char>::empty());
        assert(s[i] == '"');
        assert(parse_string_body(s, i) == Some((Seq::<char>::empty(), i + 1)));
        assert(content =~= Seq::<char>::empty());
    } else {
        let c0 = content[0];
        let rest = content.skip(1);
        assert(ser_escaped(content) == esc_char(c0) + ser_escaped(rest));
        if c0 == '"' || c0 == '\\' {
            let prefix2 = prefix + seq!['\\', c0];
            assert(s =~= prefix2 + ser_escaped(rest) + seq!['"'] + suffix);
            lemma_parse_string_body_round_trip(prefix2, rest, suffix);
            assert(s[i] == '\\');
            assert(s[i + 1] == c0);
            assert(parse_string_body(s, i + 2) == Some(
                (rest, prefix2.len() as int + ser_escaped(rest).len() + 1),
            ));
            assert(seq![c0] + rest =~= content);
            assert(prefix2.len() + ser_escaped(rest).len() + 1 == prefix.len() + ser_escaped(
                content,
            ).len() + 1);
        } else {
            let prefix2 = prefix + seq![c0];
            assert(s =~= prefix2 + ser_escaped(rest) + seq!['"'] + suffix);
            lemma_parse_string_body_round_trip(prefix2, rest, suffix);
            assert(s[i] == c0);
            assert(parse_string_body(s, i + 1) == Some(
                (rest, prefix2.len() as int + ser_escaped(rest).len() + 1),
            ));
            assert(seq![c0] + rest =~= content);
        }
    }
}

/// Writes the escaped body of `content` onto `out`.
pub fn ser_escaped_exec(out: &mut Vec<char>, content: &Vec<char>)
    ensures
        final(out)@ == old(out)@ + ser_escaped(content@),
{
    let mut i: usize = 0;
    proof {
        assert(content@.skip(0) =~= content@);
    }
    while i < content.len()
        invariant
            i <= content@.len(),
            out@ + ser_escaped(content@.skip(i as int)) == old(out)@ + ser_escaped(content@),
        decreases content@.len() - i,
    {
        let c = content[i];
        proof {
            assert(content@.skip(i as int)[0] == c);
            assert(content@.skip(i as int).skip(1) =~= content@.skip(i as int + 1));
            assert(ser_escaped(content@.skip(i as int)) == esc_char(c) + ser_escaped(
                content@.skip(i as int + 1),
            ));
        }
        if c == '"' || c == '\\' {
            out.push('\\');
            out.push(c);
            proof {
                assert(esc_char(c) =~= seq!['\\', c]);
                assert(out@ + ser_escaped(content@.skip(i as int + 1)) =~= old(out)@ + ser_escaped(
                    content@,
                ));
            }
        } else {
            out.push(c);
            proof {
                assert(esc_char(c) =~= seq![c]);
                assert(out@ + ser_escaped(content@.skip(i as int + 1)) =~= old(out)@ + ser_escaped(
                    content@,
                ));
            }
        }
        i += 1;
    }
    proof {
        assert(content@.skip(content@.len() as int) =~= Seq::<char>::empty());
        assert(ser_escaped(Seq::<char>::empty()) =~= Seq::<char>::empty());
        assert(final(out)@ =~= old(out)@ + ser_escaped(content@));
    }
}

/// Reads a string body at `i`, mirroring `parse_string_body`.
pub fn parse_string_body_exec(s: &Vec<char>, i: usize) -> (r: Option<(Vec<char>, usize)>)
    requires
        i <= s@.len(),
    ensures
        match parse_string_body(s@, i as int) {
            Some(p) => r matches Some(q) && q.0@ == p.0 && q.1 == p.1,
            None => r is None,
        },
{
    let mut content: Vec<char> = Vec::new();
    let mut j: usize = i;
    loop
        invariant
            i <= j <= s@.len(),
            parse_string_body(s@, i as int) == (match parse_string_body(s@, j as int) {
                Some((t, k)) => Some((content@ + t, k)),
                None => None::<(Seq<char>, int)>,
            }),
        decreases s@.len() - j,
    {
        if j >= s.len() {
            return None;
        }
        let c = s[j];
        if c == '"' {
            proof {
                assert(content@ + Seq::<char>::empty() =~= content@);
            }
            return Some((content, j + 1));
        } else if c == '\\' {
            if j + 1 < s.len() {
                let e = s[j + 1];
                if e == '"' || e == '\\' {
                    content.push(e);
                    proof {
                        assert forall|t: Seq<char>|
                            true implies #[trigger] (content@ + t) == content@.drop_last() + (
                        seq![e] + t) by {
                            assert(content@ + t =~= content@.drop_last() + (seq![e] + t));
                        }
                    }
                    j += 2;
                } else {
                    return None;
                }
            } else {
                return None;
            }
        } else {
            content.push(c);
            proof {
                assert forall|t: Seq<char>|
                    true implies #[trigger] (content@ + t) == content@.drop_last() + (seq![c]
                    + t) by {
                    assert(content@ + t =~= content@.drop_last() + (seq![c] + t));
                }
            }
            j += 1;
        }
    }
}

// ---------------------------------------------------------------------------
// Literal tokens
// ---------------------------------------------------------------------------
/// Matches the literal `lit` at `i`.
pub open spec fn parse_lit(s: Seq<char>, i: int, lit: Seq<char>) -> Option<int> {
    if 0 <= i && i + lit.len() <= s.len() && s.subrange(i, i + lit.len()) == lit {
        Some(i + lit.len())
    } else {
        None
    }
}

/// Round trip for literals.
pub proof fn lemma_parse_lit_round_trip(prefix: Seq<char>, lit: Seq<char>, suffix: Seq<char>)
    ensures
        parse_lit(prefix + lit + suffix, prefix.len() as int, lit) == Some(
            (prefix.len() + lit.len()) as int,
        ),
{
    let s = prefix + lit + suffix;
    let i = prefix.len() as int;
    assert(s.subrange(i, i + lit.len()) =~= lit);
}

/// Matches the literal `lit` at `i`, mirroring `parse_lit`.
pub fn parse_lit_exec(s: &Vec<char>, i: usize, lit: &str) -> (r: Option<usize>)
    requires
        i <= s@.len(),
    ensures
        match parse_lit(s@, i as int, lit@) {
            Some(j) => r matches Some(k) && k == j,
            None => r is None,
        },
{
    let lv = chars_of_str(lit);
    let slen = s.len();
    if slen - i < lv.len() {
        proof {
            assert(parse_lit(s@, i as int, lit@) is None);
        }
        return None;
    }
    let mut k: usize = 0;
    while k < lv.len()
        invariant
            slen == s@.len(),
            i + lv@.len() <= slen,
            k <= lv@.len(),
            lv@ == lit@,
            forall|m: int| 0 <= m < k ==> s@[i + m] == lit@[m],
        decreases lv@.len() - k,
    {
        if s[i + k] != lv[k] {
            proof {
                assert(s@.subrange(i as int, i as int + lit@.len())[k as int] != lit@[k as int]);
            }
            return None;
        }
        k += 1;
    }
    proof {
        assert(s@.subrange(i as int, i as int + lit@.len()) =~= lit@);
    }
    Some(i + lv.len())
}

} // verus!
