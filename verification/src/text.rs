//! Verified parsing of the texts the parameter forms emit: decimal numbers,
//! `(x, y)` coordinate pairs and `(r, g, b, a)` colors. Malformed input is
//! rejected here, before any action is dispatched.

use crate::color::Rgba;
use vstd::prelude::*;
use vstd::string::StrSliceExecFns;

verus! {

/// Whether the character is a decimal digit.
pub open spec fn is_digit(c: char) -> bool {
    '0' as int <= c as int && c as int <= '9' as int
}

/// The value of one decimal digit.
pub open spec fn digit_val(c: char) -> int {
    c as int - '0' as int
}

/// Whether every character of the text is a decimal digit.
pub open spec fn all_digits(s: Seq<char>) -> bool {
    forall|i: int| 0 <= i < s.len() ==> is_digit(#[trigger] s[i])
}

/// The number a run of decimal digits denotes.
pub open spec fn digits_val(s: Seq<char>) -> int
    decreases s.len(),
{
    if s.len() == 0 {
        0
    } else {
        digits_val(s.drop_last()) * 10 + digit_val(s.last())
    }
}

/// Reading one more digit multiplies the value so far by ten and adds it.
proof fn lemma_range_val_step(s: Seq<char>, start: int, i: int)
    requires
        0 <= start <= i < s.len(),
    ensures
        digits_val(s.subrange(start, i + 1)) == digits_val(s.subrange(start, i)) * 10
            + digit_val(s[i]),
{
    assert(s.subrange(start, i + 1).drop_last() =~= s.subrange(start, i));
    assert(s.subrange(start, i + 1).last() == s[i]);
}

/// A digit run's value is never negative.
proof fn lemma_range_val_nonneg(s: Seq<char>, start: int, i: int)
    requires
        0 <= start <= i <= s.len(),
        forall|k: int| start <= k < i ==> is_digit(#[trigger] s[k]),
    ensures
        digits_val(s.subrange(start, i)) >= 0,
    decreases i - start,
{
    if i > start {
        lemma_range_val_nonneg(s, start, i - 1);
        lemma_range_val_step(s, start, i - 1);
    }
}

/// A digit run's value only grows as the run extends.
proof fn lemma_range_val_mono(s: Seq<char>, start: int, i: int, j: int)
    requires
        0 <= start <= i <= j <= s.len(),
        forall|k: int| start <= k < j ==> is_digit(#[trigger] s[k]),
    ensures
        digits_val(s.subrange(start, i)) <= digits_val(s.subrange(start, j)),
    decreases j - i,
{
    if j > i {
        lemma_range_val_mono(s, start, i, j - 1);
        lemma_range_val_step(s, start, j - 1);
        lemma_range_val_nonneg(s, start, j - 1);
    }
}

/// The end of the digit run beginning at `start`: the first index at or
/// after `start` holding a non-digit, or the text's length.
pub open spec fn run_end(s: Seq<char>, start: int) -> int
    decreases s.len() - start,
{
    if start >= s.len() || start < 0 {
        start
    } else if !is_digit(s[start]) {
        start
    } else {
        run_end(s, start + 1)
    }
}

/// Finds the end of the digit run beginning at `start`.
fn scan_digits(s: &str, start: usize) -> (end: usize)
    requires
        start as int <= s@.len(),
    ensures
        start <= end <= s@.len(),
        forall|i: int| start <= i < end ==> is_digit(#[trigger] s@[i]),
        (end as int) < s@.len() ==> !is_digit(s@[end as int]),
        end as int == run_end(s@, start as int),
{
    let n = s.unicode_len();
    let mut i: usize = start;
    while i < n
        invariant
            start <= i <= n,
            n == s@.len(),
            forall|k: int| start <= k < i ==> is_digit(#[trigger] s@[k]),
            run_end(s@, start as int) == run_end(s@, i as int),
        decreases n - i,
    {
        let c = s.get_char(i);
        let v = c as u32;
        if !(48 <= v && v <= 57) {
            return i;
        }
        proof {
            assert(run_end(s@, i as int) == run_end(s@, i as int + 1));
        }
        i += 1;
    }
    n
}

/// Computes the value of a digit run, or `None` when it exceeds the cap.
fn digits_value_capped(s: &str, start: usize, end: usize, cap: u32) -> (v: Option<u32>)
    requires
        start <= end,
        end as int <= s@.len(),
        forall|i: int| start <= i < end ==> is_digit(#[trigger] s@[i]),
        cap <= 65535,
    ensures
        v matches Some(x) ==> x as int == digits_val(
            s@.subrange(start as int, end as int),
        ) && x <= cap,
        v is None ==> digits_val(s@.subrange(start as int, end as int)) > cap,
{
    let mut acc: u32 = 0;
    let mut i: usize = start;
    proof {
        assert(s@.subrange(start as int, start as int) =~= Seq::<char>::empty());
    }
    while i < end
        invariant
            start <= i <= end,
            end as int <= s@.len(),
            cap <= 65535,
            forall|k: int| start <= k < end ==> is_digit(#[trigger] s@[k]),
            acc as int == digits_val(s@.subrange(start as int, i as int)),
            acc <= cap,
        decreases end - i,
    {
        let c = s.get_char(i);
        let d = (c as u32) - 48;
        proof {
            lemma_range_val_step(s@, start as int, i as int);
        }
        let next = acc * 10 + d;
        if next > cap {
            proof {
                lemma_range_val_mono(s@, start as int, i as int + 1, end as int);
            }
            return None;
        }
        acc = next;
        i += 1;
    }
    Some(acc)
}

/// Whether the text is a decimal numeral denoting a value within the cap.
pub open spec fn is_numeral_within(s: Seq<char>, cap: int) -> bool {
    s.len() > 0 && all_digits(s) && digits_val(s) <= cap
}

/// Parses a bare decimal numeral into a byte, as the blur radius field
/// holds one: `Some` exactly when the whole text is a digit run whose value
/// fits.
pub fn parse_u8_text(s: &str) -> (r: Option<u8>)
    ensures
        r is Some <==> is_numeral_within(s@, 255),
        r matches Some(x) ==> x as int == digits_val(s@),
{
    let n = s.unicode_len();
    let end = scan_digits(s, 0);
    if n == 0 || end != n {
        return None;
    }
    proof {
        assert(s@.subrange(0, n as int) =~= s@);
    }
    match digits_value_capped(s, 0, n, 255) {
        Some(v) => Some(v as u8),
        None => None,
    }
}

/// Parses a bare decimal numeral into a 16-bit coordinate or length.
pub fn parse_u16_text(s: &str) -> (r: Option<u16>)
    ensures
        r is Some <==> is_numeral_within(s@, 65535),
        r matches Some(x) ==> x as int == digits_val(s@),
{
    let n = s.unicode_len();
    let end = scan_digits(s, 0);
    if n == 0 || end != n {
        return None;
    }
    proof {
        assert(s@.subrange(0, n as int) =~= s@);
    }
    match digits_value_capped(s, 0, n, 65535) {
        Some(v) => Some(v as u16),
        None => None,
    }
}

/// A maximal digit run that matches a known field of a decomposition ends
/// exactly at the field's end.
proof fn lemma_field_run(s: Seq<char>, start: int, fld: Seq<char>, e: int)
    requires
        0 <= start,
        start + fld.len() < s.len(),
        forall|i: int| 0 <= i < fld.len() ==> s[start + i] == #[trigger] fld[i],
        fld.len() > 0,
        all_digits(fld),
        !is_digit(s[start + fld.len()]),
        start <= e <= s.len(),
        forall|i: int| start <= i < e ==> is_digit(#[trigger] s[i]),
        e < s.len() ==> !is_digit(s[e]),
    ensures
        e == start + fld.len(),
        s.subrange(start, e) =~= fld,
        digits_val(s.subrange(start, e)) == digits_val(fld),
{
    if e < start + fld.len() {
        assert(s[e] == fld[e - start]);
        assert(false);
    }
    if e > start + fld.len() {
        assert(is_digit(s[start + fld.len()]));
        assert(false);
    }
    assert(s.subrange(start, e) =~= fld);
}

/// The decomposition of a coordinate-pair text into its two numeral
/// fields: an opening parenthesis, the first numeral, a comma and a space,
/// the second numeral, a closing parenthesis.
pub open spec fn pair_text_parts(s: Seq<char>, s1: Seq<char>, s2: Seq<char>, cap: int) -> bool {
    &&& s == "("@ + s1 + ", "@ + s2 + ")"@
    &&& is_numeral_within(s1, cap)
    &&& is_numeral_within(s2, cap)
}

/// Whether the text is a well-formed pair of numerals within the cap.
pub open spec fn is_pair_text(s: Seq<char>, cap: int) -> bool {
    exists|s1: Seq<char>, s2: Seq<char>| pair_text_parts(s, s1, s2, cap)
}

/// Where each piece of a decomposed pair text sits in the whole text.
proof fn lemma_pair_layout(s: Seq<char>, s1: Seq<char>, s2: Seq<char>, cap: int)
    requires
        pair_text_parts(s, s1, s2, cap),
    ensures
        s.len() == 4 + s1.len() + s2.len(),
        s[0] == '(',
        forall|i: int| 0 <= i < s1.len() ==> s[1 + i] == #[trigger] s1[i],
        s[1 + s1.len() as int] == ',',
        s[2 + s1.len() as int] == ' ',
        forall|i: int| 0 <= i < s2.len() ==> s[3 + s1.len() as int + i] == #[trigger] s2[i],
        s[s.len() - 1] == ')',
{
    reveal_strlit("(");
    reveal_strlit(", ");
    reveal_strlit(")");
    assert("("@.len() == 1);
    assert(", "@.len() == 2);
    assert(")"@.len() == 1);
    assert("("@[0] == '(');
    assert(", "@[0] == ',');
    assert(", "@[1] == ' ');
    assert(")"@[0] == ')');
}

/// If a decomposition exists, the parser's first field scan lands exactly
/// on it: derives every fact the early checks test.
proof fn lemma_pair_first(s: Seq<char>, cap: int, e1: int)
    requires
        is_pair_text(s, cap),
        1 <= e1 <= s.len(),
        forall|i: int| 1 <= i < e1 ==> is_digit(#[trigger] s[i]),
        e1 < s.len() ==> !is_digit(s[e1]),
    ensures
        s.len() >= 6,
        s[0] == '(',
        e1 > 1,
        e1 + 2 < s.len() - 1,
        s[e1] == ',',
        s[e1 + 1] == ' ',
        digits_val(s.subrange(1, e1)) <= cap,
        forall|i: int| e1 + 2 <= i < s.len() - 1 ==> is_digit(#[trigger] s[i]),
        s[s.len() - 1] == ')',
        digits_val(s.subrange(e1 + 2, s.len() - 1)) <= cap,
{
    let (s1, s2) = choose|s1: Seq<char>, s2: Seq<char>| pair_text_parts(s, s1, s2, cap);
    lemma_pair_layout(s, s1, s2, cap);
    assert(!is_digit(','));
    lemma_field_run(s, 1, s1, e1);
    assert forall|i: int| e1 + 2 <= i < s.len() - 1 implies is_digit(#[trigger] s[i]) by {
        assert(s[3 + s1.len() as int + (i - e1 - 2)] == s2[i - e1 - 2]);
        assert(is_digit(s2[i - e1 - 2]));
    }
    assert(s.subrange(e1 + 2, s.len() - 1) =~= s2);
}

/// The same for the second field scan, once the first field's end is
/// known.
proof fn lemma_pair_second(s: Seq<char>, cap: int, e1: int, e2: int)
    requires
        is_pair_text(s, cap),
        1 <= e1 <= s.len(),
        forall|i: int| 1 <= i < e1 ==> is_digit(#[trigger] s[i]),
        e1 < s.len() ==> !is_digit(s[e1]),
        e1 + 2 <= e2 <= s.len(),
        forall|i: int| e1 + 2 <= i < e2 ==> is_digit(#[trigger] s[i]),
        e2 < s.len() ==> !is_digit(s[e2]),
    ensures
        e2 == s.len() - 1,
        e2 > e1 + 2,
        s[e2] == ')',
        digits_val(s.subrange(e1 + 2, e2)) <= cap,
{
    lemma_pair_first(s, cap, e1);
    assert(!is_digit(')'));
    if e2 < s.len() - 1 {
        assert(is_digit(s[e2]));
        assert(false);
    }
    if e2 > s.len() - 1 {
        assert(is_digit(s[s.len() - 1]));
        assert(false);
    }
}

/// Parses a `(x, y)` coordinate-pair text: `Some` exactly when the text
/// decomposes into two numerals that fit 16 bits, and then the two parsed
/// values are the numerals' values.
pub fn parse_coord_text(s: &str) -> (r: Option<(u16, u16)>)
    ensures
        r is Some <==> is_pair_text(s@, 65535),
        r matches Some(p) ==> exists|s1: Seq<char>, s2: Seq<char>|
            pair_text_parts(s@, s1, s2, 65535) && p.0 == digits_val(s1) && p.1 == digits_val(
                s2,
            ),
{
    let n = s.unicode_len();
    if n < 1 || !(s.get_char(0) == '(') {
        proof {
            assert(!is_pair_text(s@, 65535)) by {
                if is_pair_text(s@, 65535) {
                    let (s1, s2) = choose|s1: Seq<char>, s2: Seq<char>|
                        pair_text_parts(s@, s1, s2, 65535);
                    lemma_pair_layout(s@, s1, s2, 65535);
                }
            }
        }
        return None;
    }
    let e1 = scan_digits(s, 1);
    if e1 == 1 || n - e1 < 3 || !(s.get_char(e1) == ',' && s.get_char(e1 + 1) == ' ') {
        proof {
            assert(!is_pair_text(s@, 65535)) by {
                if is_pair_text(s@, 65535) {
                    lemma_pair_first(s@, 65535, e1 as int);
                }
            }
        }
        return None;
    }
    let v1 = match digits_value_capped(s, 1, e1, 65535) {
        Some(v) => v,
        None => {
            proof {
                assert(!is_pair_text(s@, 65535)) by {
                    if is_pair_text(s@, 65535) {
                        lemma_pair_first(s@, 65535, e1 as int);
                    }
                }
            }
            return None;
        },
    };
    let start2 = e1 + 2;
    let e2 = scan_digits(s, start2);
    if e2 == start2 || e2 != n - 1 || !(s.get_char(e2) == ')') {
        proof {
            assert(!is_pair_text(s@, 65535)) by {
                if is_pair_text(s@, 65535) {
                    lemma_pair_second(s@, 65535, e1 as int, e2 as int);
                }
            }
        }
        return None;
    }
    let v2 = match digits_value_capped(s, start2, e2, 65535) {
        Some(v) => v,
        None => {
            proof {
                assert(!is_pair_text(s@, 65535)) by {
                    if is_pair_text(s@, 65535) {
                        lemma_pair_second(s@, 65535, e1 as int, e2 as int);
                    }
                }
            }
            return None;
        },
    };
    proof {
        lemma_pair_sound(s@, e1 as int, e2 as int, 65535);
    }
    Some((v1 as u16, v2 as u16))
}

/// The fields of a parenthesized numeral list, walked left to right: each
/// field is a nonempty digit run within the cap; the last one is closed by
/// the final parenthesis, every earlier one is followed by a comma and a
/// space.
pub open spec fn fields_ok_from(s: Seq<char>, start: int, k: int, cap: int) -> bool
    decreases k,
{
    let e = run_end(s, start);
    if k <= 1 {
        &&& e > start
        &&& e == s.len() - 1
        &&& s[e] == ')'
        &&& digits_val(s.subrange(start, e)) <= cap
    } else {
        &&& e > start
        &&& e + 1 < s.len()
        &&& s[e] == ','
        &&& s[e + 1] == ' '
        &&& digits_val(s.subrange(start, e)) <= cap
        &&& fields_ok_from(s, e + 2, k - 1, cap)
    }
}

/// Whether the text is a well-formed `(r, g, b, a)` color: four channel
/// numerals up to 255 between one pair of parentheses.
pub open spec fn is_color_text(s: Seq<char>) -> bool {
    s.len() >= 2 && s[0] == '(' && fields_ok_from(s, 1, 4, 255)
}

/// Where the `k`-th field of such a list begins.
pub open spec fn field_start(s: Seq<char>, k: int) -> int
    decreases k,
{
    if k <= 1 {
        1
    } else {
        run_end(s, field_start(s, k - 1)) + 2
    }
}

/// The value of the `k`-th field.
pub open spec fn field_val(s: Seq<char>, k: int) -> int {
    digits_val(s.subrange(field_start(s, k), run_end(s, field_start(s, k))))
}

/// Parses a `(r, g, b, a)` color text: `Some` exactly when the text is
/// well formed, and then each channel is its field's value.
pub fn parse_color_text(s: &str) -> (r: Option<Rgba>)
    ensures
        r is Some <==> is_color_text(s@),
        r matches Some(c) ==> c.r == field_val(s@, 1) && c.g == field_val(s@, 2) && c.b
            == field_val(s@, 3) && c.a == field_val(s@, 4),
{
    proof {
        reveal_with_fuel(fields_ok_from, 5);
        reveal_with_fuel(field_start, 5);
    }
    let n = s.unicode_len();
    if n < 2 || !(s.get_char(0) == '(') {
        return None;
    }
    let e1 = scan_digits(s, 1);
    if e1 == 1 || n - e1 < 2 || !(s.get_char(e1) == ',' && s.get_char(e1 + 1) == ' ') {
        return None;
    }
    let v1 = match digits_value_capped(s, 1, e1, 255) {
        Some(v) => v,
        None => {
            return None;
        },
    };
    let e2 = scan_digits(s, e1 + 2);
    if e2 == e1 + 2 || n - e2 < 2 || !(s.get_char(e2) == ',' && s.get_char(e2 + 1) == ' ') {
        return None;
    }
    let v2 = match digits_value_capped(s, e1 + 2, e2, 255) {
        Some(v) => v,
        None => {
            return None;
        },
    };
    let e3 = scan_digits(s, e2 + 2);
    if e3 == e2 + 2 || n - e3 < 2 || !(s.get_char(e3) == ',' && s.get_char(e3 + 1) == ' ') {
        return None;
    }
    let v3 = match digits_value_capped(s, e2 + 2, e3, 255) {
        Some(v) => v,
        None => {
            return None;
        },
    };
    let e4 = scan_digits(s, e3 + 2);
    if e4 == e3 + 2 || e4 != n - 1 || !(s.get_char(e4) == ')') {
        return None;
    }
    let v4 = match digits_value_capped(s, e3 + 2, e4, 255) {
        Some(v) => v,
        None => {
            return None;
        },
    };
    Some(Rgba { r: v1 as u8, g: v2 as u8, b: v3 as u8, a: v4 as u8 })
}

/// When the parser's checks all passed, the text decomposes into the two
/// scanned fields.
proof fn lemma_pair_sound(s: Seq<char>, e1: int, e2: int, cap: int)
    requires
        s.len() >= 6,
        s[0] == '(',
        1 < e1,
        e1 + 2 < s.len(),
        forall|i: int| 1 <= i < e1 ==> is_digit(#[trigger] s[i]),
        s[e1] == ',',
        s[e1 + 1] == ' ',
        digits_val(s.subrange(1, e1)) <= cap,
        e1 + 2 < e2,
        e2 == s.len() - 1,
        forall|i: int| e1 + 2 <= i < e2 ==> is_digit(#[trigger] s[i]),
        s[e2] == ')',
        digits_val(s.subrange(e1 + 2, e2)) <= cap,
    ensures
        pair_text_parts(s, s.subrange(1, e1), s.subrange(e1 + 2, e2), cap),
        is_pair_text(s, cap),
{
    reveal_strlit("(");
    reveal_strlit(", ");
    reveal_strlit(")");
    let s1 = s.subrange(1, e1);
    let s2 = s.subrange(e1 + 2, e2);
    assert("("@.len() == 1);
    assert(", "@.len() == 2);
    assert(")"@.len() == 1);
    assert("("@[0] == '(');
    assert(", "@[0] == ',');
    assert(", "@[1] == ' ');
    assert(")"@[0] == ')');
    assert(s =~= "("@ + s1 + ", "@ + s2 + ")"@);
    assert(pair_text_parts(s, s1, s2, cap));
}

} // verus!
