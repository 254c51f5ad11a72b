//! A model of SemVer versions: parsing, rendering, and the precedence order
//! used to decide whether one version is newer than another.

use vstd::prelude::*;
use vstd::string::StrSliceExecFns;
use vstd::string::StringExecFns;

use crate::strings::digit_char;
use crate::strings::dec_digits;
use crate::strings::lex_lt;
use crate::strings::find_char;
use crate::strings::substr;
use crate::strings::push_char;
use crate::strings::str_eq;
use crate::strings::str_lt;
use crate::strings::u64_to_string;

verus! {

pub open spec fn is_digit(c: char) -> bool {
    c == '0' || c == '1' || c == '2' || c == '3' || c == '4' || c == '5' || c == '6' || c == '7'
        || c == '8' || c == '9'
}

/// Value of a digit character.
pub open spec fn dval(c: char) -> nat {
    if c == '0' {
        0
    } else if c == '1' {
        1
    } else if c == '2' {
        2
    } else if c == '3' {
        3
    } else if c == '4' {
        4
    } else if c == '5' {
        5
    } else if c == '6' {
        6
    } else if c == '7' {
        7
    } else if c == '8' {
        8
    } else {
        9
    }
}

pub open spec fn is_digits(s: Seq<char>) -> bool {
    s.len() > 0 && forall|i: int| 0 <= i < s.len() ==> is_digit(s[i])
}

/// A decimal numeral without a superfluous leading zero.
pub open spec fn valid_numeric(s: Seq<char>) -> bool {
    is_digits(s) && (s.len() == 1 || s[0] != '0')
}

/// Numeric value of a digit string, most significant digit first.
pub open spec fn dec_val(s: Seq<char>) -> nat
    decreases s.len(),
{
    if s.len() == 0 {
        0
    } else {
        dec_val(s.drop_last()) * 10 + dval(s.last())
    }
}

pub open spec fn pow10(n: nat) -> nat
    decreases n,
{
    if n == 0 {
        1nat
    } else {
        10 * pow10((n - 1) as nat)
    }
}

proof fn lemma_pow10_pos(n: nat)
    ensures
        pow10(n) >= 1,
    decreases n,
{
    if n > 0 {
        lemma_pow10_pos((n - 1) as nat);
    }
}

proof fn lemma_pow10_mono(a: nat, b: nat)
    requires
        a <= b,
    ensures
        pow10(a) <= pow10(b),
    decreases b,
{
    if a < b {
        lemma_pow10_mono(a, (b - 1) as nat);
        lemma_pow10_pos((b - 1) as nat);
    }
}

proof fn lemma_pow10_20()
    ensures
        pow10(20) == 100000000000000000000,
{
    reveal_with_fuel(pow10, 21);
}

/// Any digit string of length `n` has value below `10^n`.
proof fn lemma_dec_val_upper(s: Seq<char>)
    ensures
        dec_val(s) < pow10(s.len()),
    decreases s.len(),
{
    if s.len() == 0 {
    } else {
        lemma_dec_val_upper(s.drop_last());
    }
}

/// Without a leading zero the first digit contributes at least `10^(n-1)`.
proof fn lemma_dec_val_lower(s: Seq<char>)
    requires
        is_digits(s),
        s[0] != '0',
    ensures
        dec_val(s) >= pow10((s.len() - 1) as nat),
    decreases s.len(),
{
    if s.len() == 1 {
        assert(dval(s[0]) >= 1);
    } else {
        assert(is_digits(s.drop_last()));
        assert(s.drop_last()[0] == s[0]);
        lemma_dec_val_lower(s.drop_last());
    }
}

/// Rendering the value of a valid numeral gives the numeral back.
pub proof fn lemma_dec_digits_of_val(s: Seq<char>)
    requires
        valid_numeric(s),
    ensures
        dec_digits(dec_val(s)) == s,
    decreases s.len(),
{
    if s.len() == 1 {
        reveal_with_fuel(dec_val, 2);
        assert(dec_val(s) == dval(s[0]));
        assert(dec_digits(dec_val(s)) =~= s);
    } else {
        let p = s.drop_last();
        assert(is_digits(p));
        assert(p[0] == s[0]);
        assert(valid_numeric(p));
        lemma_dec_val_lower(p);
        lemma_pow10_pos((p.len() - 1) as nat);
        assert(dec_val(p) >= 1);
        let v = dec_val(s);
        assert(v == dec_val(p) * 10 + dval(s.last()));
        assert(v >= 10);
        assert(v / 10 == dec_val(p) && v % 10 == dval(s.last())) by (nonlinear_arith)
            requires
                v == dec_val(p) * 10 + dval(s.last()),
                dval(s.last()) < 10,
        ;
        lemma_dec_digits_of_val(p);
        assert(digit_char(dval(s.last())) == s.last());
        assert(dec_digits(v) =~= s);
    }
}

/// Unfolds `dec_val` at the most significant digit.
proof fn lemma_dec_val_first(s: Seq<char>)
    requires
        s.len() > 0,
    ensures
        dec_val(s) == dval(s[0]) * pow10((s.len() - 1) as nat) + dec_val(s.drop_first()),
    decreases s.len(),
{
    if s.len() == 1 {
        reveal_with_fuel(dec_val, 2);
        assert(s.drop_last().len() == 0);
        assert(s.drop_first().len() == 0);
        assert(s.drop_first() =~= s.drop_last());
    } else {
        let p = s.drop_last();
        lemma_dec_val_first(p);
        let n = s.len();
        assert(p[0] == s[0]);
        assert(p.drop_first() =~= s.drop_first().drop_last());
        let a = dval(s[0]);
        let p2 = pow10((n - 2) as nat);
        let x = dec_val(s.drop_first().drop_last());
        let d = dval(s.last());
        assert(dec_val(p) == a * p2 + x);
        assert(dec_val(s) == dec_val(p) * 10 + d);
        assert((a * p2 + x) * 10 + d == a * (10 * p2) + (x * 10 + d)) by (nonlinear_arith);
        assert(10 * p2 == pow10((n - 1) as nat));
        assert(s.drop_first().last() == s.last());
        assert(s.drop_first().len() == n - 1);
        assert(dec_val(s.drop_first()) == x * 10 + d);
        assert(dec_val(s) == a * pow10((n - 1) as nat) + dec_val(s.drop_first()));
    }
}

/// For equal-length digit strings, lexicographic order is numeric order.
proof fn lemma_lex_is_numeric(a: Seq<char>, b: Seq<char>)
    requires
        is_digits(a),
        is_digits(b),
        a.len() == b.len(),
    ensures
        lex_lt(a, b) == (dec_val(a) < dec_val(b)),
    decreases a.len(),
{
    if a.len() == 0 {
    } else {
        lemma_dec_val_first(a);
        lemma_dec_val_first(b);
        let n = a.len();
        let p = pow10((n - 1) as nat);
        lemma_dec_val_upper(a.drop_first());
        lemma_dec_val_upper(b.drop_first());
        assert(a.drop_first().len() == n - 1);
        if a[0] != b[0] {
            assert(lex_lt(a, b) == ((a[0] as int) < (b[0] as int)));
            assert((a[0] as int) < (b[0] as int) <==> dval(a[0]) < dval(b[0]));
            if dval(a[0]) < dval(b[0]) {
                assert(dval(a[0]) * p + dec_val(a.drop_first()) < dval(a[0]) * p + p);
                assert(dval(a[0]) * p + p == (dval(a[0]) + 1) * p) by (nonlinear_arith);
                assert((dval(a[0]) + 1) * p <= dval(b[0]) * p) by (nonlinear_arith)
                    requires
                        dval(a[0]) + 1 <= dval(b[0]),
                        p >= 0,
                ;
                assert(dec_val(a) < dec_val(b));
            } else {
                assert(dval(b[0]) < dval(a[0]));
                assert(dval(b[0]) * p + dec_val(b.drop_first()) < dval(b[0]) * p + p);
                assert(dval(b[0]) * p + p == (dval(b[0]) + 1) * p) by (nonlinear_arith);
                assert((dval(b[0]) + 1) * p <= dval(a[0]) * p) by (nonlinear_arith)
                    requires
                        dval(b[0]) + 1 <= dval(a[0]),
                        p >= 0,
                ;
                assert(!(dec_val(a) < dec_val(b)));
            }
        } else {
            assert(is_digits(a.drop_first()) || a.drop_first().len() == 0);
            if a.len() == 1 {
                reveal_with_fuel(lex_lt, 2);
                assert(!lex_lt(a, b));
            } else {
                lemma_lex_is_numeric(a.drop_first(), b.drop_first());
            }
        }
    }
}

/// Numeric order on valid numerals: shorter means smaller, equal length
/// falls back to lexicographic order.
pub proof fn lemma_numeric_order(a: Seq<char>, b: Seq<char>)
    requires
        valid_numeric(a),
        valid_numeric(b),
    ensures
        (dec_val(a) < dec_val(b)) == (a.len() < b.len() || (a.len() == b.len() && lex_lt(a, b))),
{
    if a.len() < b.len() {
        lemma_dec_val_upper(a);
        lemma_dec_val_lower_or_zero(b);
        lemma_pow10_mono(a.len(), (b.len() - 1) as nat);
    } else if a.len() > b.len() {
        lemma_dec_val_upper(b);
        lemma_dec_val_lower_or_zero(a);
        lemma_pow10_mono(b.len(), (a.len() - 1) as nat);
    } else {
        lemma_lex_is_numeric(a, b);
    }
}

/// A valid numeral of length `n` is at least `10^(n-1)`, except the numeral `0`.
proof fn lemma_dec_val_lower_or_zero(s: Seq<char>)
    requires
        valid_numeric(s),
    ensures
        s.len() > 1 ==> dec_val(s) >= pow10((s.len() - 1) as nat),
        dec_val(s) >= 0,
{
    if s.len() > 1 {
        lemma_dec_val_lower(s);
    }
}

/// Parses the character range `[from, to)` of `s` as a decimal `u64`
/// numeral without leading zeros.
pub fn parse_u64_range(s: &str, from: usize, to: usize) -> (r: Option<u64>)
    requires
        from <= to <= s@.len(),
    ensures
        match r {
            Some(v) => valid_numeric(s@.subrange(from as int, to as int)) && v as nat == dec_val(
                s@.subrange(from as int, to as int),
            ),
            None => !(valid_numeric(s@.subrange(from as int, to as int)) && dec_val(
                s@.subrange(from as int, to as int),
            ) <= u64::MAX),
        },
{
    let ghost t = s@.subrange(from as int, to as int);
    if to == from {
        return None;
    }
    if to - from > 20 {
        // Too many digits: either not a valid numeral, or past `u64` range.
        proof {
            if valid_numeric(t) {
                lemma_dec_val_lower(t);
                lemma_pow10_mono(20, (t.len() - 1) as nat);
                lemma_pow10_20();
            }
        }
        return None;
    }
    if s.get_char(from) == '0' && to - from > 1 {
        return None;
    }
    let mut acc: u128 = 0;
    let mut i: usize = from;
    while i < to
        invariant
            from <= i <= to <= s@.len(),
            t == s@.subrange(from as int, to as int),
            to - from <= 20,
            forall|j: int| from <= j < i ==> is_digit(s@[j]),
            acc as nat == dec_val(s@.subrange(from as int, i as int)),
            (acc as nat) < pow10((i - from) as nat),
        decreases to - i,
    {
        let c = s.get_char(i);
        let d: u128 = if c == '0' {
            0
        } else if c == '1' {
            1
        } else if c == '2' {
            2
        } else if c == '3' {
            3
        } else if c == '4' {
            4
        } else if c == '5' {
            5
        } else if c == '6' {
            6
        } else if c == '7' {
            7
        } else if c == '8' {
            8
        } else if c == '9' {
            9
        } else {
            proof {
                assert(!is_digit(s@[i as int]));
                assert(s@[i as int] == t[i - from]);
            }
            return None;
        };
        proof {
            assert(is_digit(s@[i as int]) && d as nat == dval(s@[i as int]));
            lemma_pow10_mono((i - from) as nat, 20);
            lemma_pow10_20();
        }
        acc = acc * 10 + d;
        proof {
            let prev = s@.subrange(from as int, i as int);
            let cur = s@.subrange(from as int, i + 1 as int);
            assert(cur.drop_last() =~= prev);
            assert(cur.last() == s@[i as int]);
        }
        i = i + 1;
    }
    proof {
        assert(s@.subrange(from as int, i as int) == t);
        assert(is_digits(t));
    }
    if acc > 0xFFFF_FFFF_FFFF_FFFF {
        return None;
    }
    Some(acc as u64)
}

/// Index of the first occurrence of `c` in `s`, or `-1` if absent.
pub open spec fn idx_of(s: Seq<char>, c: char) -> int
    decreases s.len(),
{
    if s.len() == 0 {
        -1
    } else if s[0] == c {
        0
    } else if idx_of(s.drop_first(), c) == -1 {
        -1
    } else {
        idx_of(s.drop_first(), c) + 1
    }
}

pub proof fn lemma_idx_of(s: Seq<char>, c: char)
    ensures
        idx_of(s, c) == -1 ==> forall|j: int| 0 <= j < s.len() ==> s[j] != c,
        idx_of(s, c) != -1 ==> 0 <= idx_of(s, c) < s.len() && s[idx_of(s, c)] == c && forall|j: int|
            0 <= j < idx_of(s, c) ==> s[j] != c,
    decreases s.len(),
{
    if s.len() > 0 && s[0] != c {
        lemma_idx_of(s.drop_first(), c);
        assert(forall|j: int| 1 <= j < s.len() ==> s[j] == s.drop_first()[j - 1]);
    }
}

/// `idx_of` is pinned down by the first-occurrence property.
pub proof fn lemma_idx_of_exact(s: Seq<char>, c: char, i: int)
    requires
        0 <= i < s.len(),
        s[i] == c,
        forall|j: int| 0 <= j < i ==> s[j] != c,
    ensures
        idx_of(s, c) == i,
    decreases s.len(),
{
    if i > 0 {
        lemma_idx_of_exact(s.drop_first(), c, i - 1);
    }
}

pub proof fn lemma_idx_of_none(s: Seq<char>, c: char)
    requires
        forall|j: int| 0 <= j < s.len() ==> s[j] != c,
    ensures
        idx_of(s, c) == -1,
{
    lemma_idx_of(s, c);
    if idx_of(s, c) != -1 {
        assert(s[idx_of(s, c)] == c);
    }
}

/// Splits `s` at every `.`; the result always has at least one part, and
/// no part contains a `.`.
pub open spec fn split_dots(s: Seq<char>) -> Seq<Seq<char>>
    decreases s.len()
        via split_dots_dec
{
    if idx_of(s, '.') == -1 {
        seq![s]
    } else {
        seq![s.subrange(0, idx_of(s, '.'))] + split_dots(
            s.subrange(idx_of(s, '.') + 1, s.len() as int),
        )
    }
}

#[via_fn]
proof fn split_dots_dec(s: Seq<char>) {
    lemma_idx_of(s, '.');
}

/// Joins parts with `.` separators; inverse of `split_dots`.
pub open spec fn join_dots(parts: Seq<Seq<char>>) -> Seq<char>
    decreases parts.len(),
{
    if parts.len() == 0 {
        Seq::<char>::empty()
    } else if parts.len() == 1 {
        parts[0]
    } else {
        parts[0] + seq!['.'] + join_dots(parts.drop_first())
    }
}

pub proof fn lemma_split_dots_nonempty(s: Seq<char>)
    ensures
        split_dots(s).len() >= 1,
{
    lemma_idx_of(s, '.');
}

/// Joining the split of any string gives the string back.
pub proof fn lemma_join_split(s: Seq<char>)
    ensures
        join_dots(split_dots(s)) == s,
    decreases s.len(),
{
    lemma_idx_of(s, '.');
    let i = idx_of(s, '.');
    if i == -1 {
        assert(join_dots(seq![s]) == s);
    } else {
        let head = s.subrange(0, i);
        let rest = s.subrange(i + 1, s.len() as int);
        lemma_join_split(rest);
        lemma_split_dots_nonempty(rest);
        let parts = seq![head] + split_dots(rest);
        assert(parts.len() >= 2);
        assert(parts[0] == head);
        assert(parts.drop_first() =~= split_dots(rest));
        assert(join_dots(parts) == head + seq!['.'] + rest);
        assert(head + seq!['.'] + rest =~= s);
    }
}

/// Splits a string slice at every `.`.
pub fn split_dots_vec(s: &str) -> (r: Vec<String>)
    ensures
        r.deep_view() == split_dots(s@),
{
    let n = s.unicode_len();
    let mut parts: Vec<String> = Vec::new();
    let mut pos: usize = 0;
    proof {
        assert(s@.subrange(0, n as int) =~= s@);
        assert(parts.deep_view() =~= Seq::<Seq<char>>::empty());
        assert(parts.deep_view() + split_dots(s@) =~= split_dots(s@));
    }
    loop
        invariant
            pos <= n,
            n == s@.len(),
            split_dots(s@) == parts.deep_view() + split_dots(s@.subrange(pos as int, n as int)),
        decreases n - pos,
    {
        let ghost rest = s@.subrange(pos as int, n as int);
        match find_char(s, '.', pos) {
            Some(i) => {
                let part = substr(s, pos, i);
                proof {
                    assert(rest[i - pos] == '.');
                    assert(forall|j: int| 0 <= j < i - pos ==> rest[j] != '.');
                    lemma_idx_of_exact(rest, '.', i - pos);
                    assert(rest.subrange(0, i - pos) =~= s@.subrange(pos as int, i as int));
                    assert(rest.subrange(i - pos + 1, rest.len() as int) =~= s@.subrange(
                        i + 1 as int,
                        n as int,
                    ));
                }
                parts.push(part);
                proof {
                    assert(parts.deep_view() + split_dots(s@.subrange(i + 1 as int, n as int))
                        =~= split_dots(s@));
                }
                pos = i + 1;
            },
            None => {
                let part = substr(s, pos, n);
                proof {
                    assert(forall|j: int| 0 <= j < rest.len() ==> rest[j] != '.');
                    lemma_idx_of_none(rest, '.');
                    assert(split_dots(rest) == seq![rest]);
                }
                parts.push(part);
                proof {
                    assert(parts.deep_view() =~= split_dots(s@));
                }
                return parts;
            },
        }
    }
}

/// Joins parts with `.` separators.
pub fn join_dots_vec(parts: &Vec<String>) -> (r: String)
    requires
        parts.len() >= 1,
    ensures
        r@ == join_dots(parts.deep_view()),
{
    let mut out: String = parts[0].clone();
    proof {
        lemma_join_dots_as_tail(parts.deep_view());
        assert(parts.deep_view()[0] == parts[0]@);
        assert(out@ == parts.deep_view()[0]);
    }
    let mut i: usize = 1;
    while i < parts.len()
        invariant
            1 <= i <= parts.len(),
            join_dots(parts.deep_view()) == out@ + join_dots_tail(parts.deep_view(), i as int),
        decreases parts.len() - i,
    {
        let ghost prev = out@;
        let ghost dv = parts.deep_view();
        push_char(&mut out, '.');
        out.append(parts[i].as_str());
        proof {
            lemma_join_dots_tail_step(dv, i as int);
            assert(dv[i as int] == parts[i as int]@);
            assert(out@ =~= prev + (seq!['.'] + dv[i as int]));
            assert(prev + (seq!['.'] + dv[i as int]) + join_dots_tail(dv, i + 1) =~= prev
                + join_dots_tail(dv, i as int));
        }
        i = i + 1;
    }
    proof {
        assert(join_dots_tail(parts.deep_view(), parts.len() as int) == Seq::<char>::empty());
        assert(out@ + Seq::<char>::empty() =~= out@);
    }
    out
}

/// What remains to be appended after the first `i` parts have been joined:
/// a `.` and the part, for each remaining part.
pub open spec fn join_dots_tail(parts: Seq<Seq<char>>, i: int) -> Seq<char>
    decreases parts.len() - i,
{
    if i < 0 || i >= parts.len() {
        Seq::<char>::empty()
    } else {
        seq!['.'] + parts[i] + join_dots_tail(parts, i + 1)
    }
}

proof fn lemma_join_dots_tail_step(parts: Seq<Seq<char>>, i: int)
    requires
        0 <= i < parts.len(),
    ensures
        join_dots_tail(parts, i) == seq!['.'] + parts[i] + join_dots_tail(parts, i + 1),
{
}

/// Joining equals the first part followed by the tail of separators and parts.
proof fn lemma_join_dots_as_tail(parts: Seq<Seq<char>>)
    requires
        parts.len() >= 1,
    ensures
        join_dots(parts) == parts[0] + join_dots_tail(parts, 1),
    decreases parts.len(),
{
    if parts.len() == 1 {
        assert(join_dots_tail(parts, 1) == Seq::<char>::empty());
        assert(parts[0] + Seq::<char>::empty() =~= parts[0]);
    } else {
        lemma_join_dots_as_tail(parts.drop_first());
        lemma_join_tail_shift(parts, 1);
        assert(parts.drop_first()[0] == parts[1]);
        assert(join_dots(parts) == parts[0] + seq!['.'] + (parts[1] + join_dots_tail(
            parts.drop_first(),
            1,
        )));
        assert(parts[0] + seq!['.'] + (parts[1] + join_dots_tail(parts, 2)) =~= parts[0]
            + (seq!['.'] + parts[1] + join_dots_tail(parts, 2)));
        assert(join_dots_tail(parts, 1) == seq!['.'] + parts[1] + join_dots_tail(parts, 2));
    }
}

proof fn lemma_join_tail_shift(parts: Seq<Seq<char>>, i: int)
    requires
        1 <= i,
        parts.len() >= 1,
    ensures
        join_dots_tail(parts.drop_first(), i) == join_dots_tail(parts, i + 1),
    decreases parts.len() - i,
{
    assert(parts.drop_first().len() == parts.len() - 1);
    if i < parts.len() - 1 {
        assert(parts.drop_first()[i] == parts[i + 1]);
        lemma_join_tail_shift(parts, i + 1);
    }
}

pub open spec fn valid_ident_char(c: char) -> bool {
    is_digit(c) || (('a' as int) <= (c as int) && (c as int) <= ('z' as int)) || (('A' as int) <= (
    c as int) && (c as int) <= ('Z' as int)) || c == '-'
}

/// A build identifier: non-empty, ASCII letters, digits and hyphens.
pub open spec fn valid_ident(s: Seq<char>) -> bool {
    s.len() > 0 && forall|i: int| 0 <= i < s.len() ==> valid_ident_char(s[i])
}

/// A pre-release identifier: as `valid_ident`, and a purely numeric one
/// carries no leading zero.
pub open spec fn valid_pre_ident(s: Seq<char>) -> bool {
    valid_ident(s) && (is_digits(s) ==> valid_numeric(s))
}

pub open spec fn all_valid_pre(parts: Seq<Seq<char>>) -> bool {
    forall|i: int| 0 <= i < parts.len() ==> valid_pre_ident(#[trigger] parts[i])
}

pub open spec fn all_valid_build(parts: Seq<Seq<char>>) -> bool {
    forall|i: int| 0 <= i < parts.len() ==> valid_ident(#[trigger] parts[i])
}

/// The mathematical value of a version: three numbers, pre-release
/// identifiers and build identifiers.
pub struct VersionV {
    pub major: int,
    pub minor: int,
    pub patch: int,
    pub pre: Seq<Seq<char>>,
    pub build: Seq<Seq<char>>,
}

impl VersionV {
    pub open spec fn wf(self) -> bool {
        &&& 0 <= self.major <= u64::MAX
        &&& 0 <= self.minor <= u64::MAX
        &&& 0 <= self.patch <= u64::MAX
        &&& all_valid_pre(self.pre)
        &&& all_valid_build(self.build)
    }
}

/// A SemVer version: `major.minor.patch`, optionally `-pre` and `+build`.
#[derive(Debug)]
pub struct Version {
    pub major: u64,
    pub minor: u64,
    pub patch: u64,
    pub pre: Vec<String>,
    pub build: Vec<String>,
}

impl View for Version {
    type V = VersionV;

    open spec fn view(&self) -> VersionV {
        VersionV {
            major: self.major as int,
            minor: self.minor as int,
            patch: self.patch as int,
            pre: self.pre.deep_view(),
            build: self.build.deep_view(),
        }
    }
}

/// The canonical rendering of a version value.
pub open spec fn ver_str(v: VersionV) -> Seq<char> {
    dec_digits(v.major as nat) + seq!['.'] + dec_digits(v.minor as nat) + seq!['.'] + dec_digits(
        v.patch as nat,
    ) + (if v.pre.len() > 0 {
        seq!['-'] + join_dots(v.pre)
    } else {
        Seq::<char>::empty()
    }) + (if v.build.len() > 0 {
        seq!['+'] + join_dots(v.build)
    } else {
        Seq::<char>::empty()
    })
}

/// Parses the three dotted numerals and the optional identifier lists.
pub open spec fn parse_parts_spec(
    core: Seq<char>,
    pre: Option<Seq<char>>,
    build: Option<Seq<char>>,
) -> Option<VersionV> {
    let nums = split_dots(core);
    let prev = match pre {
        Option::None => Seq::<Seq<char>>::empty(),
        Option::Some(p) => split_dots(p),
    };
    let buildv = match build {
        Option::None => Seq::<Seq<char>>::empty(),
        Option::Some(b) => split_dots(b),
    };
    if nums.len() == 3 && valid_numeric(nums[0]) && dec_val(nums[0]) <= u64::MAX && valid_numeric(
        nums[1],
    ) && dec_val(nums[1]) <= u64::MAX && valid_numeric(nums[2]) && dec_val(nums[2]) <= u64::MAX
        && all_valid_pre(prev) && all_valid_build(buildv) {
        Option::Some(
            VersionV {
                major: dec_val(nums[0]) as int,
                minor: dec_val(nums[1]) as int,
                patch: dec_val(nums[2]) as int,
                pre: prev,
                build: buildv,
            },
        )
    } else {
        Option::None
    }
}

/// What parsing a version string yields: the text before the first `+` is
/// split at its first `-` into the dotted core and the pre-release part.
pub open spec fn parse_version_spec(s: Seq<char>) -> Option<VersionV> {
    let ip = idx_of(s, '+');
    let rest = if ip == -1 {
        s
    } else {
        s.subrange(0, ip)
    };
    let build = if ip == -1 {
        Option::<Seq<char>>::None
    } else {
        Option::Some(s.subrange(ip + 1, s.len() as int))
    };
    let id = idx_of(rest, '-');
    let core = if id == -1 {
        rest
    } else {
        rest.subrange(0, id)
    };
    let pre = if id == -1 {
        Option::<Seq<char>>::None
    } else {
        Option::Some(rest.subrange(id + 1, rest.len() as int))
    };
    parse_parts_spec(core, pre, build)
}

/// Rendering a parsed version gives the parsed string back: parsing
/// loses nothing.
pub proof fn lemma_version_render_parse(s: Seq<char>)
    requires
        parse_version_spec(s) is Some,
    ensures
        ver_str(parse_version_spec(s)->Some_0) == s,
{
    let v = parse_version_spec(s)->Some_0;
    lemma_idx_of(s, '+');
    let ip = idx_of(s, '+');
    let rest = if ip == -1 {
        s
    } else {
        s.subrange(0, ip)
    };
    lemma_idx_of(rest, '-');
    let id = idx_of(rest, '-');
    let core = if id == -1 {
        rest
    } else {
        rest.subrange(0, id)
    };
    let nums = split_dots(core);
    lemma_join_split(core);
    assert(nums.len() == 3);
    assert(join_dots(nums) == nums[0] + seq!['.'] + (nums[1] + seq!['.'] + nums[2])) by {
        reveal_with_fuel(join_dots, 4);
        assert(nums.drop_first()[0] == nums[1]);
        assert(nums.drop_first().drop_first() =~= seq![nums[2]]);
        assert(nums.drop_first().drop_first()[0] == nums[2]);
    }
    lemma_dec_digits_of_val(nums[0]);
    lemma_dec_digits_of_val(nums[1]);
    lemma_dec_digits_of_val(nums[2]);
    assert(dec_digits(v.major as nat) == nums[0]);
    assert(dec_digits(v.minor as nat) == nums[1]);
    assert(dec_digits(v.patch as nat) == nums[2]);
    let core_str = dec_digits(v.major as nat) + seq!['.'] + dec_digits(v.minor as nat) + seq!['.']
        + dec_digits(v.patch as nat);
    assert(core_str =~= join_dots(nums));
    if id == -1 {
        assert(v.pre =~= Seq::<Seq<char>>::empty());
        assert(core == rest);
        assert(core_str + Seq::<char>::empty() =~= rest);
    } else {
        let pre_part = rest.subrange(id + 1, rest.len() as int);
        lemma_join_split(pre_part);
        lemma_split_dots_nonempty(pre_part);
        assert(v.pre == split_dots(pre_part));
        assert(join_dots(v.pre) == pre_part);
        assert(core_str + (seq!['-'] + join_dots(v.pre)) =~= rest);
    }
    let left = core_str + (if v.pre.len() > 0 {
        seq!['-'] + join_dots(v.pre)
    } else {
        Seq::<char>::empty()
    });
    assert(left == rest);
    if ip == -1 {
        assert(v.build =~= Seq::<Seq<char>>::empty());
        assert(left + Seq::<char>::empty() =~= s);
    } else {
        let build_part = s.subrange(ip + 1, s.len() as int);
        lemma_join_split(build_part);
        lemma_split_dots_nonempty(build_part);
        assert(v.build == split_dots(build_part));
        assert(join_dots(v.build) == build_part);
        assert(left + (seq!['+'] + join_dots(v.build)) =~= s);
    }
    assert(ver_str(v) =~= left + (if v.build.len() > 0 {
        seq!['+'] + join_dots(v.build)
    } else {
        Seq::<char>::empty()
    }));
}

fn is_digit_exec(c: char) -> (r: bool)
    ensures
        r == is_digit(c),
{
    c == '0' || c == '1' || c == '2' || c == '3' || c == '4' || c == '5' || c == '6' || c == '7'
        || c == '8' || c == '9'
}

fn is_digits_exec(s: &str) -> (r: bool)
    ensures
        r == is_digits(s@),
{
    let n = s.unicode_len();
    if n == 0 {
        return false;
    }
    let mut i: usize = 0;
    while i < n
        invariant
            0 <= i <= n,
            n == s@.len(),
            forall|j: int| 0 <= j < i ==> is_digit(s@[j]),
        decreases n - i,
    {
        if !is_digit_exec(s.get_char(i)) {
            return false;
        }
        i = i + 1;
    }
    true
}

fn is_ident_char_exec(c: char) -> (r: bool)
    ensures
        r == valid_ident_char(c),
{
    let u = c as u32;
    is_digit_exec(c) || (97 <= u && u <= 122) || (65 <= u && u <= 90) || c == '-'
}

fn is_ident_valid(s: &str) -> (r: bool)
    ensures
        r == valid_ident(s@),
{
    let n = s.unicode_len();
    if n == 0 {
        return false;
    }
    let mut i: usize = 0;
    while i < n
        invariant
            0 <= i <= n,
            n == s@.len(),
            forall|j: int| 0 <= j < i ==> valid_ident_char(s@[j]),
        decreases n - i,
    {
        if !is_ident_char_exec(s.get_char(i)) {
            return false;
        }
        i = i + 1;
    }
    true
}

fn is_pre_ident_valid(s: &str) -> (r: bool)
    ensures
        r == valid_pre_ident(s@),
{
    if !is_ident_valid(s) {
        return false;
    }
    if is_digits_exec(s) {
        let n = s.unicode_len();
        if n > 1 && s.get_char(0) == '0' {
            return false;
        }
    }
    true
}

/// Whether every identifier is a valid pre-release identifier.
pub fn check_pre_idents(parts: &Vec<String>) -> (r: bool)
    ensures
        r == all_valid_pre(parts.deep_view()),
{
    let mut i: usize = 0;
    while i < parts.len()
        invariant
            0 <= i <= parts.len(),
            forall|j: int| 0 <= j < i ==> valid_pre_ident(#[trigger] parts.deep_view()[j]),
        decreases parts.len() - i,
    {
        let ok = is_pre_ident_valid(parts[i].as_str());
        proof {
            assert(parts.deep_view()[i as int] == parts[i as int]@);
        }
        if !ok {
            return false;
        }
        i = i + 1;
    }
    true
}

/// Whether every identifier is a valid build identifier.
pub fn check_build_idents(parts: &Vec<String>) -> (r: bool)
    ensures
        r == all_valid_build(parts.deep_view()),
{
    let mut i: usize = 0;
    while i < parts.len()
        invariant
            0 <= i <= parts.len(),
            forall|j: int| 0 <= j < i ==> valid_ident(#[trigger] parts.deep_view()[j]),
        decreases parts.len() - i,
    {
        let ok = is_ident_valid(parts[i].as_str());
        proof {
            assert(parts.deep_view()[i as int] == parts[i as int]@);
        }
        if !ok {
            return false;
        }
        i = i + 1;
    }
    true
}

impl Version {
    /// A plain release version with no pre-release or build identifiers.
    pub fn new(major: u64, minor: u64, patch: u64) -> (r: Version)
        ensures
            r@ == (VersionV {
                major: major as int,
                minor: minor as int,
                patch: patch as int,
                pre: Seq::<Seq<char>>::empty(),
                build: Seq::<Seq<char>>::empty(),
            }),
            r@.wf(),
    {
        let r = Version { major, minor, patch, pre: Vec::new(), build: Vec::new() };
        proof {
            assert(r@.pre =~= Seq::<Seq<char>>::empty());
            assert(r@.build =~= Seq::<Seq<char>>::empty());
        }
        r
    }

    /// Parses a SemVer version string.
    pub fn parse(s: &str) -> (r: Option<Version>)
        ensures
            match r {
                Some(v) => v@.wf() && parse_version_spec(s@) == Option::Some(v@),
                None => parse_version_spec(s@) is None,
            },
    {
        let n = s.unicode_len();
        let ghost ip = idx_of(s@, '+');
        let (rest, build_str): (String, Option<String>) = match find_char(s, '+', 0) {
            Some(i) => {
                proof {
                    lemma_idx_of_exact(s@, '+', i as int);
                }
                (substr(s, 0, i), Some(substr(s, i + 1, n)))
            },
            None => {
                proof {
                    lemma_idx_of_none(s@, '+');
                    assert(s@.subrange(0, n as int) =~= s@);
                }
                (substr(s, 0, n), None)
            },
        };
        let rn = rest.as_str().unicode_len();
        let ghost id = idx_of(rest@, '-');
        let (core, pre_str): (String, Option<String>) = match find_char(rest.as_str(), '-', 0) {
            Some(i) => {
                proof {
                    lemma_idx_of_exact(rest@, '-', i as int);
                }
                (substr(rest.as_str(), 0, i), Some(substr(rest.as_str(), i + 1, rn)))
            },
            None => {
                proof {
                    lemma_idx_of_none(rest@, '-');
                    assert(rest@.subrange(0, rn as int) =~= rest@);
                }
                (substr(rest.as_str(), 0, rn), None)
            },
        };
        let ghost pre_spec = match pre_str {
            Some(ref p) => Option::Some(p@),
            None => Option::<Seq<char>>::None,
        };
        let ghost build_spec = match build_str {
            Some(ref b) => Option::Some(b@),
            None => Option::<Seq<char>>::None,
        };
        proof {
            assert(parse_version_spec(s@) == parse_parts_spec(core@, pre_spec, build_spec));
        }
        let nums = split_dots_vec(core.as_str());
        if nums.len() != 3 {
            return None;
        }
        proof {
            assert(nums.deep_view()[0] == nums[0]@);
            assert(nums.deep_view()[1] == nums[1]@);
            assert(nums.deep_view()[2] == nums[2]@);
        }
        let n0 = nums[0].as_str().unicode_len();
        let major = match parse_u64_range(nums[0].as_str(), 0, n0) {
            Some(v) => v,
            None => {
                proof {
                    assert(nums[0]@.subrange(0, n0 as int) =~= nums[0]@);
                }
                return None;
            },
        };
        let n1 = nums[1].as_str().unicode_len();
        let minor = match parse_u64_range(nums[1].as_str(), 0, n1) {
            Some(v) => v,
            None => {
                proof {
                    assert(nums[1]@.subrange(0, n1 as int) =~= nums[1]@);
                }
                return None;
            },
        };
        let n2 = nums[2].as_str().unicode_len();
        let patch = match parse_u64_range(nums[2].as_str(), 0, n2) {
            Some(v) => v,
            None => {
                proof {
                    assert(nums[2]@.subrange(0, n2 as int) =~= nums[2]@);
                }
                return None;
            },
        };
        proof {
            assert(nums[0]@.subrange(0, n0 as int) =~= nums[0]@);
            assert(nums[1]@.subrange(0, n1 as int) =~= nums[1]@);
            assert(nums[2]@.subrange(0, n2 as int) =~= nums[2]@);
        }
        let pre_vec: Vec<String> = match pre_str {
            Some(p) => {
                let parts = split_dots_vec(p.as_str());
                if !check_pre_idents(&parts) {
                    return None;
                }
                parts
            },
            None => Vec::new(),
        };
        let build_vec: Vec<String> = match build_str {
            Some(b) => {
                let parts = split_dots_vec(b.as_str());
                if !check_build_idents(&parts) {
                    return None;
                }
                parts
            },
            None => Vec::new(),
        };
        let v = Version { major, minor, patch, pre: pre_vec, build: build_vec };
        proof {
            if pre_spec is None {
                assert(v@.pre =~= Seq::<Seq<char>>::empty());
            }
            if build_spec is None {
                assert(v@.build =~= Seq::<Seq<char>>::empty());
            }
            assert(parse_parts_spec(core@, pre_spec, build_spec) == Option::Some(v@));
        }
        Some(v)
    }

    /// Renders the version in its canonical textual form.
    pub fn render(&self) -> (r: String)
        ensures
            r@ == ver_str(self@),
    {
        let mut out = u64_to_string(self.major);
        push_char(&mut out, '.');
        out.append(u64_to_string(self.minor).as_str());
        push_char(&mut out, '.');
        out.append(u64_to_string(self.patch).as_str());
        let ghost core = out@;
        proof {
            assert(core =~= dec_digits(self@.major as nat) + seq!['.'] + dec_digits(
                self@.minor as nat,
            ) + seq!['.'] + dec_digits(self@.patch as nat));
        }
        if self.pre.len() > 0 {
            push_char(&mut out, '-');
            out.append(join_dots_vec(&self.pre).as_str());
        }
        let ghost mid = out@;
        proof {
            if self@.pre.len() > 0 {
                assert(mid =~= core + (seq!['-'] + join_dots(self@.pre)));
            } else {
                assert(mid =~= core + Seq::<char>::empty());
            }
        }
        if self.build.len() > 0 {
            push_char(&mut out, '+');
            out.append(join_dots_vec(&self.build).as_str());
        }
        proof {
            if self@.build.len() > 0 {
                assert(out@ =~= mid + (seq!['+'] + join_dots(self@.build)));
            } else {
                assert(out@ =~= mid + Seq::<char>::empty());
            }
            assert(out@ =~= ver_str(self@));
        }
        out
    }
}

/// SemVer order on two identifiers: numeric ones compare by value and come
/// before alphanumeric ones, which compare lexicographically.
pub open spec fn ident_lt(a: Seq<char>, b: Seq<char>) -> bool {
    if is_digits(a) && is_digits(b) {
        dec_val(a) < dec_val(b)
    } else if is_digits(a) {
        true
    } else if is_digits(b) {
        false
    } else {
        lex_lt(a, b)
    }
}

/// SemVer order on identifier lists: position by position, a strict prefix
/// comes first.
pub open spec fn idents_lt(a: Seq<Seq<char>>, b: Seq<Seq<char>>) -> bool
    decreases a.len(),
{
    if a.len() == 0 {
        b.len() > 0
    } else if b.len() == 0 {
        false
    } else if a[0] == b[0] {
        idents_lt(a.drop_first(), b.drop_first())
    } else {
        ident_lt(a[0], b[0])
    }
}

/// SemVer precedence on pre-release lists: any pre-release comes before the
/// plain release (the empty list).
pub open spec fn pre_lt(a: Seq<Seq<char>>, b: Seq<Seq<char>>) -> bool {
    if a.len() > 0 && b.len() == 0 {
        true
    } else if a.len() == 0 {
        false
    } else {
        idents_lt(a, b)
    }
}

/// SemVer precedence: numbers first, then the pre-release rule; build
/// metadata is ignored.
pub open spec fn ver_lt(a: VersionV, b: VersionV) -> bool {
    if a.major != b.major {
        a.major < b.major
    } else if a.minor != b.minor {
        a.minor < b.minor
    } else if a.patch != b.patch {
        a.patch < b.patch
    } else {
        pre_lt(a.pre, b.pre)
    }
}

/// Identifier lists ordered lexicographically only; the deterministic
/// tie-break this library uses for build metadata.
pub open spec fn build_idents_lt(a: Seq<Seq<char>>, b: Seq<Seq<char>>) -> bool
    decreases a.len(),
{
    if a.len() == 0 {
        b.len() > 0
    } else if b.len() == 0 {
        false
    } else if a[0] == b[0] {
        build_idents_lt(a.drop_first(), b.drop_first())
    } else {
        lex_lt(a[0], b[0])
    }
}

/// A strict total order on versions: precedence first, then build metadata
/// as a deterministic tie-break.
pub open spec fn ver_total_lt(a: VersionV, b: VersionV) -> bool {
    if a.major == b.major && a.minor == b.minor && a.patch == b.patch && a.pre == b.pre {
        build_idents_lt(a.build, b.build)
    } else {
        ver_lt(a, b)
    }
}

fn ident_lt_exec(a: &str, b: &str) -> (r: bool)
    requires
        is_digits(a@) ==> valid_numeric(a@),
        is_digits(b@) ==> valid_numeric(b@),
    ensures
        r == ident_lt(a@, b@),
{
    let da = is_digits_exec(a);
    let db = is_digits_exec(b);
    if da && db {
        proof {
            lemma_numeric_order(a@, b@);
        }
        let la = a.unicode_len();
        let lb = b.unicode_len();
        if la != lb {
            la < lb
        } else {
            str_lt(a, b)
        }
    } else if da {
        true
    } else if db {
        false
    } else {
        str_lt(a, b)
    }
}

fn idents_lt_exec(a: &Vec<String>, b: &Vec<String>) -> (r: bool)
    requires
        all_valid_pre(a.deep_view()),
        all_valid_pre(b.deep_view()),
    ensures
        r == idents_lt(a.deep_view(), b.deep_view()),
{
    let ghost av = a.deep_view();
    let ghost bv = b.deep_view();
    proof {
        assert(av.skip(0) =~= av);
        assert(bv.skip(0) =~= bv);
    }
    let mut i: usize = 0;
    loop
        invariant
            0 <= i <= a.len(),
            0 <= i <= b.len(),
            av == a.deep_view(),
            bv == b.deep_view(),
            av.len() == a.len(),
            bv.len() == b.len(),
            all_valid_pre(av),
            all_valid_pre(bv),
            idents_lt(av, bv) == idents_lt(av.skip(i as int), bv.skip(i as int)),
        decreases a.len() - i,
    {
        proof {
            assert(av.skip(i as int).len() == av.len() - i);
            assert(bv.skip(i as int).len() == bv.len() - i);
        }
        if i == a.len() {
            return b.len() > i;
        }
        if i == b.len() {
            return false;
        }
        proof {
            assert(av.skip(i as int)[0] == av[i as int]);
            assert(bv.skip(i as int)[0] == bv[i as int]);
            assert(av[i as int] == a[i as int]@);
            assert(bv[i as int] == b[i as int]@);
        }
        if str_eq(a[i].as_str(), b[i].as_str()) {
            proof {
                assert(av.skip(i as int).drop_first() =~= av.skip(i + 1));
                assert(bv.skip(i as int).drop_first() =~= bv.skip(i + 1));
            }
            i = i + 1;
        } else {
            let r = ident_lt_exec(a[i].as_str(), b[i].as_str());
            return r;
        }
    }
}

fn build_idents_lt_exec(a: &Vec<String>, b: &Vec<String>) -> (r: bool)
    ensures
        r == build_idents_lt(a.deep_view(), b.deep_view()),
{
    let ghost av = a.deep_view();
    let ghost bv = b.deep_view();
    proof {
        assert(av.skip(0) =~= av);
        assert(bv.skip(0) =~= bv);
    }
    let mut i: usize = 0;
    loop
        invariant
            0 <= i <= a.len(),
            0 <= i <= b.len(),
            av == a.deep_view(),
            bv == b.deep_view(),
            av.len() == a.len(),
            bv.len() == b.len(),
            build_idents_lt(av, bv) == build_idents_lt(av.skip(i as int), bv.skip(i as int)),
        decreases a.len() - i,
    {
        proof {
            assert(av.skip(i as int).len() == av.len() - i);
            assert(bv.skip(i as int).len() == bv.len() - i);
        }
        if i == a.len() {
            return b.len() > i;
        }
        if i == b.len() {
            return false;
        }
        proof {
            assert(av.skip(i as int)[0] == av[i as int]);
            assert(bv.skip(i as int)[0] == bv[i as int]);
            assert(av[i as int] == a[i as int]@);
            assert(bv[i as int] == b[i as int]@);
        }
        if str_eq(a[i].as_str(), b[i].as_str()) {
            proof {
                assert(av.skip(i as int).drop_first() =~= av.skip(i + 1));
                assert(bv.skip(i as int).drop_first() =~= bv.skip(i + 1));
            }
            i = i + 1;
        } else {
            let r = str_lt(a[i].as_str(), b[i].as_str());
            return r;
        }
    }
}

/// Whether two identifier lists hold the same identifiers in the same order.
pub fn idents_eq(a: &Vec<String>, b: &Vec<String>) -> (r: bool)
    ensures
        r == (a.deep_view() == b.deep_view()),
{
    let ghost av = a.deep_view();
    let ghost bv = b.deep_view();
    if a.len() != b.len() {
        proof {
            assert(av.len() != bv.len());
        }
        return false;
    }
    let mut i: usize = 0;
    while i < a.len()
        invariant
            0 <= i <= a.len(),
            a.len() == b.len(),
            av == a.deep_view(),
            bv == b.deep_view(),
            av.len() == a.len(),
            bv.len() == b.len(),
            forall|j: int| 0 <= j < i ==> av[j] == bv[j],
        decreases a.len() - i,
    {
        proof {
            assert(av[i as int] == a[i as int]@);
            assert(bv[i as int] == b[i as int]@);
        }
        if !str_eq(a[i].as_str(), b[i].as_str()) {
            return false;
        }
        i = i + 1;
    }
    proof {
        assert(av =~= bv);
    }
    true
}

impl Version {
    /// Decides SemVer precedence: true when `self` comes strictly before
    /// `other`, pre-releases ordering below their release, build metadata
    /// ignored.
    pub fn precedes(&self, other: &Version) -> (r: bool)
        requires
            self@.wf(),
            other@.wf(),
        ensures
            r == ver_lt(self@, other@),
    {
        if self.major != other.major {
            self.major < other.major
        } else if self.minor != other.minor {
            self.minor < other.minor
        } else if self.patch != other.patch {
            self.patch < other.patch
        } else if self.pre.len() > 0 && other.pre.len() == 0 {
            true
        } else if self.pre.len() == 0 {
            false
        } else {
            idents_lt_exec(&self.pre, &other.pre)
        }
    }

    /// Decides the strict total order: precedence, then the build tie-break.
    pub fn total_precedes(&self, other: &Version) -> (r: bool)
        requires
            self@.wf(),
            other@.wf(),
        ensures
            r == ver_total_lt(self@, other@),
    {
        if self.major == other.major && self.minor == other.minor && self.patch == other.patch
            && idents_eq(&self.pre, &other.pre) {
            build_idents_lt_exec(&self.build, &other.build)
        } else {
            self.precedes(other)
        }
    }

    /// A deep copy.
    pub fn duplicate(&self) -> (r: Version)
        ensures
            r@ == self@,
    {
        Version {
            major: self.major,
            minor: self.minor,
            patch: self.patch,
            pre: crate::strings::clone_string_vec(&self.pre),
            build: crate::strings::clone_string_vec(&self.build),
        }
    }

    /// Whether two versions are equal in every component.
    pub fn equals(&self, other: &Version) -> (r: bool)
        ensures
            r == (self@ == other@),
    {
        let r = self.major == other.major && self.minor == other.minor && self.patch == other.patch
            && idents_eq(&self.pre, &other.pre) && idents_eq(&self.build, &other.build);
        proof {
            if r {
                assert(self@ =~= other@);
            }
        }
        r
    }
}

} // verus!
