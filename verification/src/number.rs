//! Recognition of decimal floating-point literals.
//!
//! A harvester row is only a sensor sample when every numeric cell reads as a
//! floating-point number. The accepted language is the documented grammar of
//! Rust's `f64::from_str`, with letters compared without regard to ASCII case:
//!
//! ```text
//! Float  ::= Sign? ( 'inf' | 'infinity' | 'nan' | Number )
//! Number ::= ( Digit+ | Digit+ '.' Digit* | Digit* '.' Digit+ ) Exp?
//! Exp    ::= 'e' Sign? Digit+
//! Sign   ::= [+-]
//! Digit  ::= [0-9]
//! ```

use vstd::prelude::*;

verus! {

pub open spec fn is_ascii_digit(c: char) -> bool {
    '0' <= c && c <= '9'
}

pub open spec fn is_sign(c: char) -> bool {
    c == '+' || c == '-'
}

/// `c` is the lowercase ASCII letter `lower` or its uppercase form.
pub open spec fn is_letter_ignoring_case(c: char, lower: char) -> bool {
    c == lower || (c as int) + 32 == lower as int
}

pub open spec fn all_digits(s: Seq<char>) -> bool {
    forall|i: int| 0 <= i < s.len() ==> is_ascii_digit(#[trigger] s[i])
}

/// `s` spells the lowercase word `word`, ignoring ASCII case.
pub open spec fn spells_word(s: Seq<char>, word: Seq<char>) -> bool {
    &&& s.len() == word.len()
    &&& forall|i: int| 0 <= i < s.len() ==> is_letter_ignoring_case(#[trigger] s[i], word[i])
}

/// `Exp ::= 'e' Sign? Digit+`
pub open spec fn is_exponent(s: Seq<char>) -> bool {
    &&& s.len() >= 2
    &&& is_letter_ignoring_case(s[0], 'e')
    &&& {
        let digits = if is_sign(s[1]) { s.skip(2) } else { s.skip(1) };
        digits.len() > 0 && all_digits(digits)
    }
}

/// `Digit+ | Digit+ '.' Digit* | Digit* '.' Digit+`
pub open spec fn is_mantissa(s: Seq<char>) -> bool {
    ||| s.len() > 0 && all_digits(s)
    ||| exists|k: int|
        #![trigger s[k]]
        0 <= k < s.len() && s[k] == '.' && all_digits(s.take(k)) && all_digits(s.skip(k + 1))
            && s.len() >= 2
}

/// `Number ::= Mantissa Exp?`
pub open spec fn is_number(s: Seq<char>) -> bool {
    exists|m: int|
        0 < m <= s.len() && is_mantissa(#[trigger] s.take(m)) && (m == s.len() || is_exponent(
            s.skip(m),
        ))
}

/// The text without its optional leading sign.
pub open spec fn unsigned_part(s: Seq<char>) -> Seq<char> {
    if s.len() > 0 && is_sign(s[0]) {
        s.skip(1)
    } else {
        s
    }
}

/// `s` is a floating-point literal of the grammar above.
pub open spec fn is_float_literal_spec(s: Seq<char>) -> bool {
    let body = unsigned_part(s);
    ||| spells_word(body, seq!['i', 'n', 'f'])
    ||| spells_word(body, seq!['i', 'n', 'f', 'i', 'n', 'i', 't', 'y'])
    ||| spells_word(body, seq!['n', 'a', 'n'])
    ||| is_number(body)
}

/// Every character of a mantissa is a digit or a dot, and at most one is a dot.
proof fn lemma_mantissa_shape(t: Seq<char>)
    requires
        is_mantissa(t),
    ensures
        forall|i: int| 0 <= i < t.len() ==> is_ascii_digit(#[trigger] t[i]) || t[i] == '.',
        forall|i: int, j: int|
            #![trigger t[i], t[j]]
            0 <= i < j < t.len() && t[i] == '.' ==> t[j] != '.',
{
    if !(t.len() > 0 && all_digits(t)) {
        let k = choose|k: int|
            #![trigger t[k]]
            0 <= k < t.len() && t[k] == '.' && all_digits(t.take(k)) && all_digits(t.skip(k + 1))
                && t.len() >= 2;
        assert forall|i: int| 0 <= i < t.len() implies is_ascii_digit(#[trigger] t[i]) || t[i]
            == '.' by {
            if i < k {
                assert(t.take(k)[i] == t[i]);
            } else if i > k {
                assert(t.skip(k + 1)[i - k - 1] == t[i]);
            }
        }
        assert forall|i: int, j: int|
            #![trigger t[i], t[j]]
            0 <= i < j < t.len() && t[i] == '.' implies t[j] != '.' by {
            if i < k {
                assert(t.take(k)[i] == t[i]);
            } else if i > k {
                assert(t.skip(k + 1)[i - k - 1] == t[i]);
            } else {
                assert(t.skip(k + 1)[j - k - 1] == t[j]);
            }
        }
    }
}

/// The longest digits-and-one-dot prefix decides whether `s` is a number.
///
/// `a` is the length of the leading digit run; when a dot follows it, `end`
/// is the end of the digit run after the dot, otherwise `end == a`.
proof fn lemma_number_by_longest_prefix(s: Seq<char>, a: int, end: int, has_dot: bool)
    requires
        0 <= a <= s.len(),
        all_digits(s.take(a)),
        a == s.len() || !is_ascii_digit(s[a]),
        has_dot == (a < s.len() && s[a] == '.'),
        has_dot ==> a < end <= s.len() && all_digits(s.subrange(a + 1, end)) && (end == s.len()
            || !is_ascii_digit(s[end])),
        !has_dot ==> end == a,
    ensures
        is_number(s) <==> ((if has_dot {
            end >= 2
        } else {
            a > 0
        }) && (end == s.len() || is_exponent(s.skip(end)))),
{
    let mantissa_ok = if has_dot {
        end >= 2
    } else {
        a > 0
    };
    if mantissa_ok && (end == s.len() || is_exponent(s.skip(end))) {
        let t = s.take(end);
        if has_dot {
            assert(t[a] == '.');
            assert(t.take(a) =~= s.take(a));
            assert(t.skip(a + 1) =~= s.subrange(a + 1, end));
            assert(is_mantissa(t));
        } else {
            assert(t =~= s.take(a));
            assert(is_mantissa(t));
        }
        assert(is_number(s));
    }
    if is_number(s) {
        let m = choose|m: int|
            0 < m <= s.len() && is_mantissa(#[trigger] s.take(m)) && (m == s.len()
                || is_exponent(s.skip(m)));
        let t = s.take(m);
        lemma_mantissa_shape(t);
        if m < end {
            // s[m] starts an exponent, yet it lies inside the digits-and-dot prefix
            assert(s.skip(m)[0] == s[m]);
            if m < a {
                assert(s.take(a)[m] == s[m]);
            } else if m > a {
                assert(s.subrange(a + 1, end)[m - a - 1] == s[m]);
            }
            assert(false);
        } else if m > end {
            assert(t[end] == s[end]);
            if has_dot {
                assert(t[a] == s[a]);
            }
            assert(false);
        } else {
            if !has_dot && a == 0 {
                assert(false);
            }
            if has_dot && end < 2 {
                assert(t[0] == '.');
                assert(false);
            }
        }
    }
}

/// The characters of `text`, in order.
fn chars_of(text: &str) -> (chars: Vec<char>)
    ensures
        chars@ == text@,
{
    let mut chars: Vec<char> = Vec::new();
    for c in it: text.chars()
        invariant
            chars@ == it.seq().take(it.index() as int),
    {
        chars.push(c);
    }
    chars
}

fn char_matches_letter(c: char, lower: char) -> (r: bool)
    ensures
        r == is_letter_ignoring_case(c, lower),
{
    c == lower || (c as u32) + 32 == lower as u32
}

fn is_digit_char(c: char) -> (r: bool)
    ensures
        r == is_ascii_digit(c),
{
    '0' <= c && c <= '9'
}

fn is_sign_char(c: char) -> (r: bool)
    ensures
        r == is_sign(c),
{
    c == '+' || c == '-'
}

/// Does `s[start..]` spell `word`, ignoring ASCII case?
fn spells_word_from(s: &Vec<char>, start: usize, word: &[char]) -> (r: bool)
    requires
        start <= s.len(),
    ensures
        r == spells_word(s@.skip(start as int), word@),
{
    if s.len() - start != word.len() {
        return false;
    }
    let mut i: usize = 0;
    while i < word.len()
        invariant
            i <= word.len(),
            s.len() - start == word.len(),
            start <= s.len(),
            forall|j: int|
                0 <= j < i ==> is_letter_ignoring_case(#[trigger] s@.skip(start as int)[j], word@[j]),
        decreases word.len() - i,
    {
        if !char_matches_letter(s[start + i], word[i]) {
            assert(s@.skip(start as int)[i as int] == s@[start + i]);
            return false;
        }
        assert(s@.skip(start as int)[i as int] == s@[start + i]);
        i = i + 1;
    }
    true
}

/// The end of the run of digits in `s` that starts at `from`.
fn digit_run_end(s: &Vec<char>, from: usize) -> (end: usize)
    requires
        from <= s.len(),
    ensures
        from <= end <= s.len(),
        all_digits(s@.subrange(from as int, end as int)),
        end == s.len() || !is_ascii_digit(s@[end as int]),
{
    let mut end = from;
    while end < s.len() && is_digit_char(s[end])
        invariant
            from <= end <= s.len(),
            all_digits(s@.subrange(from as int, end as int)),
        decreases s.len() - end,
    {
        assert(s@.subrange(from as int, end + 1) =~= s@.subrange(from as int, end as int).push(
            s@[end as int],
        ));
        end = end + 1;
    }
    end
}

/// Is `s[start..]` a floating-point `Number` (mantissa and optional exponent)?
fn is_number_from(s: &Vec<char>, start: usize) -> (r: bool)
    requires
        start <= s.len(),
    ensures
        r == is_number(s@.skip(start as int)),
{
    let ghost body = s@.skip(start as int);
    let a = digit_run_end(s, start);
    let has_dot = a < s.len() && s[a] == '.';
    let end = if has_dot {
        digit_run_end(s, a + 1)
    } else {
        a
    };
    proof {
        let ra = a - start;
        let rend = end - start;
        assert(body.take(ra) =~= s@.subrange(start as int, a as int));
        if has_dot {
            assert(body.subrange(ra + 1, rend) =~= s@.subrange(a + 1, end as int));
        }
        if end < s.len() {
            assert(body[rend] == s@[end as int]);
        }
        if a < s.len() {
            assert(body[ra] == s@[a as int]);
        }
        lemma_number_by_longest_prefix(body, ra, rend, has_dot);
        assert(body.skip(rend) =~= s@.skip(end as int));
    }
    let mantissa_ok = if has_dot {
        end - start >= 2
    } else {
        a > start
    };
    if !mantissa_ok {
        return false;
    }
    if end == s.len() {
        return true;
    }
    // Exp ::= 'e' Sign? Digit+
    let ghost rest = s@.skip(end as int);
    if s.len() - end < 2 || !char_matches_letter(s[end], 'e') {
        return false;
    }
    assert(rest[0] == s@[end as int]);
    assert(rest[1] == s@[end + 1]);
    let digits_from = if is_sign_char(s[end + 1]) {
        end + 2
    } else {
        end + 1
    };
    let digits_end = digit_run_end(s, digits_from);
    proof {
        let rd = digits_from - end;
        assert(rest.skip(rd) =~= s@.skip(digits_from as int));
        if digits_end < s.len() {
            assert(s@.skip(digits_from as int)[digits_end - digits_from] == s@[digits_end as int]);
        }
        if digits_end == s.len() {
            assert(s@.skip(digits_from as int) =~= s@.subrange(
                digits_from as int,
                digits_end as int,
            ));
        }
    }
    digits_end > digits_from && digits_end == s.len()
}

/// Does `text` read as a floating-point number?
///
/// The accepted language is the grammar in this module's documentation:
/// an optional sign, then `inf`, `infinity` or `nan` in any ASCII case, or a
/// decimal mantissa with an optional exponent. Surrounding whitespace is not
/// accepted.
pub fn is_float_literal(text: &str) -> (r: bool)
    ensures
        r == is_float_literal_spec(text@),
{
    let s = chars_of(text);
    let start: usize = if s.len() > 0 && is_sign_char(s[0]) {
        1
    } else {
        0
    };
    proof {
        assert(unsigned_part(s@) =~= s@.skip(start as int));
    }
    spells_word_from(&s, start, &['i', 'n', 'f'])
        || spells_word_from(&s, start, &['i', 'n', 'f', 'i', 'n', 'i', 't', 'y'])
        || spells_word_from(&s, start, &['n', 'a', 'n'])
        || is_number_from(&s, start)
}


pub proof fn lemma_digits_are_numbers(s: Seq<char>)
    requires
        s.len() > 0,
        forall|i: int| 0 <= i < s.len() ==> '0' <= #[trigger] s[i] <= '9',
    ensures
        is_float_literal_spec(s),
        is_float_literal_spec(seq!['-'] + s),
        is_float_literal_spec(seq!['+'] + s),
{
    assert(all_digits(s));
    assert(s.take(s.len() as int) =~= s);
    assert(is_mantissa(s.take(s.len() as int)));
    assert(is_number(s));
    assert(unsigned_part(s) =~= s);
    assert(unsigned_part(seq!['-'] + s) =~= s);
    assert(unsigned_part(seq!['+'] + s) =~= s);
}

pub proof fn lemma_decimals_are_numbers(whole: Seq<char>, fraction: Seq<char>)
    requires
        whole.len() > 0,
        forall|i: int| 0 <= i < whole.len() ==> '0' <= #[trigger] whole[i] <= '9',
        forall|i: int| 0 <= i < fraction.len() ==> '0' <= #[trigger] fraction[i] <= '9',
    ensures
        is_float_literal_spec(whole + seq!['.'] + fraction),
{
    let t = whole + seq!['.'] + fraction;
    let k = whole.len() as int;
    assert(t[k] == '.');
    assert(t.take(k) =~= whole);
    assert(t.skip(k + 1) =~= fraction);
    assert(all_digits(t.take(k)));
    assert(all_digits(t.skip(k + 1)));
    assert(t.take(t.len() as int) =~= t);
    assert(is_mantissa(t.take(t.len() as int)));
    assert(is_number(t));
    assert(t[0] == whole[0]);
    assert(unsigned_part(t) =~= t);
}

pub proof fn lemma_stray_character(s: Seq<char>, at: int)
    requires
        0 <= at < s.len(),
        !('0' <= s[at] <= '9'),
        !(s[at] == '.' || s[at] == '+' || s[at] == '-'),
        !(s[at] == 'e' || s[at] == 'E' || s[at] == 'i' || s[at] == 'I' || s[at] == 'n' || s[at] == 'N'
            || s[at] == 'f' || s[at] == 'F' || s[at] == 't' || s[at] == 'T' || s[at] == 'y'
            || s[at] == 'Y' || s[at] == 'a' || s[at] == 'A'),
    ensures
        !is_float_literal_spec(s),
{
    let body = unsigned_part(s);
    let p = if s.len() > 0 && is_sign(s[0]) {
        at - 1
    } else {
        at
    };
    assert(0 <= p < body.len() && body[p] == s[at]);
    let c = body[p];
    assert(!is_letter_ignoring_case(c, 'i'));
    assert(!is_letter_ignoring_case(c, 'n'));
    assert(!is_letter_ignoring_case(c, 'f'));
    assert(!is_letter_ignoring_case(c, 't'));
    assert(!is_letter_ignoring_case(c, 'y'));
    assert(!is_letter_ignoring_case(c, 'a'));
    assert(!is_letter_ignoring_case(c, 'e'));
    if spells_word(body, seq!['i', 'n', 'f']) {
        assert(is_letter_ignoring_case(body[p], seq!['i', 'n', 'f'][p]));
    }
    if spells_word(body, seq!['i', 'n', 'f', 'i', 'n', 'i', 't', 'y']) {
        assert(is_letter_ignoring_case(body[p], seq!['i', 'n', 'f', 'i', 'n', 'i', 't', 'y'][p]));
    }
    if spells_word(body, seq!['n', 'a', 'n']) {
        assert(is_letter_ignoring_case(body[p], seq!['n', 'a', 'n'][p]));
    }
    if is_number(body) {
        let m = choose|m: int|
            0 < m <= body.len() && is_mantissa(#[trigger] body.take(m)) && (m == body.len()
                || is_exponent(body.skip(m)));
        let t = body.take(m);
        lemma_mantissa_shape(t);
        if p < m {
            assert(t[p] == c);
        } else {
            let r = body.skip(m);
            assert(r[p - m] == c);
            if p - m == 0 {
                assert(r[0] == c);
            } else if p - m == 1 {
                assert(r[1] == c);
                if !is_sign(r[1]) {
                    assert(r.skip(1)[0] == c);
                }
            } else {
                if is_sign(r[1]) {
                    assert(r.skip(2)[p - m - 2] == c);
                } else {
                    assert(r.skip(1)[p - m - 1] == c);
                }
            }
        }
    }
}

} // verus!
