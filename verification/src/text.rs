//! Text as sequences of characters: comparison, decimal numbers, and the small
//! amount of scanning that target descriptions and settings need.
use vstd::prelude::*;

verus! {

/// `String::push` appends the given character to the end of the string.
pub assume_specification[ String::push ](s: &mut String, ch: char)
    ensures
        final(s)@ == old(s)@.push(ch),
;

/// What `Debug` prints for a string: the text in double quotes, with escapes.
pub uninterp spec fn quoted(s: Seq<char>) -> Seq<char>;

/// `Debug` formatting of a `str`. The contract only says that the text printed
/// depends on nothing but the characters of `s`.
#[verifier::external_body]
pub(crate) fn debug_text(s: &str) -> (r: String)
    ensures
        r@ == quoted(s@),
{
    format!("{:?}", s)
}

/// The characters of `s`, in order.
pub fn chars_of(s: &str) -> (r: Vec<char>)
    ensures
        r@ == s@,
{
    let mut r: Vec<char> = Vec::new();
    for c in it: s.chars()
        invariant
            it.seq() == s@,
            r@ == s@.take(it.index() as int),
    {
        r.push(c);
    }
    r
}

/// The string made of the characters `cs[from..to]`.
pub fn text_between(cs: &Vec<char>, from: usize, to: usize) -> (r: String)
    requires
        from <= to <= cs@.len(),
    ensures
        r@ == cs@.subrange(from as int, to as int),
{
    let mut r = String::new();
    for i in from..to
        invariant
            from <= to <= cs@.len(),
            r@ == cs@.subrange(from as int, i as int),
    {
        r.push(cs[i]);
    }
    r
}

/// Whether two texts hold the same characters.
pub fn same_text(a: &str, b: &str) -> (r: bool)
    ensures
        r == (a@ == b@),
{
    let x = chars_of(a);
    let y = chars_of(b);
    if x.len() != y.len() {
        return false;
    }
    for i in 0..x.len()
        invariant
            x@ == a@,
            y@ == b@,
            x@.len() == y@.len(),
            x@.take(i as int) == y@.take(i as int),
    {
        if x[i] != y[i] {
            assert(a@[i as int] != b@[i as int]);
            return false;
        }
        assert(x@.take(i + 1) == x@.take(i as int).push(x@[i as int]));
        assert(y@.take(i + 1) == y@.take(i as int).push(y@[i as int]));
    }
    assert(x@.take(x@.len() as int) == x@);
    assert(y@.take(y@.len() as int) == y@);
    true
}

/// The decimal digit for a value below ten.
pub open spec fn digit(d: int) -> char {
    (48 + d) as char
}

/// Decimal notation of a natural number, without leading zeros.
pub open spec fn decimal_nat(n: nat) -> Seq<char>
    decreases n,
{
    if n < 10 {
        seq![digit(n as int)]
    } else {
        decimal_nat(n / 10).push(digit((n % 10) as int))
    }
}

/// Decimal notation of an integer: a minus sign in front of negative ones.
pub open spec fn decimal(n: int) -> Seq<char> {
    if n < 0 {
        seq!['-'] + decimal_nat((-n) as nat)
    } else {
        decimal_nat(n as nat)
    }
}

fn digit_char(d: u8) -> (c: char)
    requires
        d < 10,
    ensures
        c == digit(d as int),
{
    (48u8 + d) as char
}

/// Decimal notation of an unsigned number.
pub fn decimal_u64(n: u64) -> (r: String)
    ensures
        r@ == decimal(n as int),
    decreases n,
{
    if n < 10 {
        let mut r = String::new();
        r.push(digit_char(n as u8));
        r
    } else {
        let mut r = decimal_u64(n / 10);
        r.push(digit_char((n % 10) as u8));
        r
    }
}

/// Decimal notation of a signed number.
pub fn decimal_i64(n: i64) -> (r: String)
    ensures
        r@ == decimal(n as int),
{
    if n < 0 {
        let magnitude: u64 = (-(n + 1)) as u64 + 1;
        let mut r = "-".to_string();
        proof {
            reveal_strlit("-");
        }
        let digits = decimal_u64(magnitude);
        r.append(digits.as_str());
        assert(r@ == seq!['-'] + decimal_nat((-n) as nat));
        r
    } else {
        decimal_u64(n as u64)
    }
}

/// The items of a list, in decimal, with a comma and a space between them.
pub open spec fn comma_separated(xs: Seq<i64>) -> Seq<char>
    decreases xs.len(),
{
    if xs.len() == 0 {
        Seq::empty()
    } else if xs.len() == 1 {
        decimal(xs[0] as int)
    } else {
        comma_separated(xs.drop_last()) + ", "@ + decimal(xs.last() as int)
    }
}

/// A list of integers as `Debug` prints it, such as `[1, 3, 224]`.
pub open spec fn list_text(xs: Seq<i64>) -> Seq<char> {
    "["@ + comma_separated(xs) + "]"@
}

/// Renders a list of integers as `[a, b, c]`.
pub fn render_list(xs: &[i64]) -> (r: String)
    ensures
        r@ == list_text(xs@),
{
    let mut items = String::new();
    for i in 0..xs.len()
        invariant
            items@ == comma_separated(xs@.take(i as int)),
    {
        if i > 0 {
            items.append(", ");
        }
        items.append(decimal_i64(xs[i]).as_str());
        assert(xs@.take(i + 1).drop_last() == xs@.take(i as int));
        assert(i == 0 ==> items@ == decimal(xs@[0] as int));
    }
    assert(xs@.take(xs@.len() as int) == xs@);
    let mut r = "[".to_string();
    r.append(items.as_str());
    r.append("]");
    r
}

/// The characters with the Unicode `White_Space` property.
pub open spec fn is_white(c: char) -> bool {
    ||| 0x09 <= c as u32 <= 0x0d
    ||| c as u32 == 0x20
    ||| c as u32 == 0x85
    ||| c as u32 == 0xa0
    ||| c as u32 == 0x1680
    ||| 0x2000 <= c as u32 <= 0x200a
    ||| c as u32 == 0x2028
    ||| c as u32 == 0x2029
    ||| c as u32 == 0x202f
    ||| c as u32 == 0x205f
    ||| c as u32 == 0x3000
}

/// Whether a character has the Unicode `White_Space` property.
pub fn is_whitespace(c: char) -> (r: bool)
    ensures
        r == is_white(c),
{
    let u: u32 = c as u32;
    (0x09 <= u && u <= 0x0d) || u == 0x20 || u == 0x85 || u == 0xa0 || u == 0x1680 || (0x2000 <= u
        && u <= 0x200a) || u == 0x2028 || u == 0x2029 || u == 0x202f || u == 0x205f || u == 0x3000
}

/// `s` without its leading whitespace.
pub open spec fn trim_start(s: Seq<char>) -> Seq<char>
    decreases s.len(),
{
    if s.len() > 0 && is_white(s[0]) {
        trim_start(s.drop_first())
    } else {
        s
    }
}

/// `s` without its trailing whitespace.
pub open spec fn trim_end(s: Seq<char>) -> Seq<char>
    decreases s.len(),
{
    if s.len() > 0 && is_white(s.last()) {
        trim_end(s.drop_last())
    } else {
        s
    }
}

/// `s` without leading and trailing whitespace.
pub open spec fn trimmed(s: Seq<char>) -> Seq<char> {
    trim_end(trim_start(s))
}

/// Removes leading and trailing whitespace.
pub fn trim(s: &str) -> (r: String)
    ensures
        r@ == trimmed(s@),
{
    let cs = chars_of(s);
    let mut from: usize = 0;
    assert(cs@.skip(0) == cs@);
    while from < cs.len() && is_whitespace(cs[from])
        invariant
            from <= cs@.len(),
            trim_start(cs@) == trim_start(cs@.skip(from as int)),
        decreases cs@.len() - from,
    {
        assert(cs@.skip(from as int).drop_first() == cs@.skip(from + 1));
        from = from + 1;
    }
    let mut to: usize = cs.len();
    let ghost rest = cs@.skip(from as int);
    assert(trim_start(rest) == rest);
    assert(cs@.subrange(from as int, to as int) == rest);
    while to > from && is_whitespace(cs[to - 1])
        invariant
            from <= to <= cs@.len(),
            trim_end(rest) == trim_end(cs@.subrange(from as int, to as int)),
        decreases to,
    {
        assert(cs@.subrange(from as int, to as int).drop_last() == cs@.subrange(
            from as int,
            to - 1,
        ));
        to = to - 1;
    }
    text_between(&cs, from, to)
}

/// How many characters stand before the first whitespace.
pub open spec fn word_len(s: Seq<char>) -> nat
    decreases s.len(),
{
    if s.len() == 0 || is_white(s[0]) {
        0
    } else {
        1 + word_len(s.drop_first())
    }
}

proof fn word_len_bounds(s: Seq<char>)
    ensures
        word_len(s) <= s.len(),
    decreases s.len(),
{
    if s.len() > 0 && !is_white(s[0]) {
        word_len_bounds(s.drop_first());
    }
}

/// The maximal runs of characters that are not whitespace, in order.
pub open spec fn words_of(s: Seq<char>) -> Seq<Seq<char>>
    decreases s.len(),
{
    if s.len() == 0 {
        Seq::empty()
    } else if is_white(s[0]) {
        words_of(s.drop_first())
    } else if word_len(s) <= s.len() {
        seq![s.take(word_len(s) as int)] + words_of(s.skip(word_len(s) as int))
    } else {
        Seq::empty()
    }
}

/// The texts that a list of strings holds.
pub open spec fn texts(v: Seq<String>) -> Seq<Seq<char>> {
    v.map_values(|s: String| s@)
}

/// Splits a text at whitespace, leaving no empty pieces.
pub fn split_words(s: &str) -> (r: Vec<String>)
    ensures
        texts(r@) == words_of(s@),
{
    let cs = chars_of(s);
    let mut r: Vec<String> = Vec::new();
    let mut i: usize = 0;
    assert(cs@.skip(0) == cs@);
    while i < cs.len()
        invariant
            i <= cs@.len(),
            texts(r@) + words_of(cs@.skip(i as int)) == words_of(cs@),
        decreases cs@.len() - i,
    {
        let ghost rest = cs@.skip(i as int);
        if is_whitespace(cs[i]) {
            assert(rest.drop_first() == cs@.skip(i + 1));
            i = i + 1;
        } else {
            let start: usize = i;
            assert(cs@.skip(i as int) == rest);
            while i < cs.len() && !is_whitespace(cs[i])
                invariant
                    start <= i <= cs@.len(),
                    word_len(cs@.skip(start as int)) == (i - start) + word_len(cs@.skip(i as int)),
                decreases cs@.len() - i,
            {
                assert(cs@.skip(i as int).drop_first() == cs@.skip(i + 1));
                i = i + 1;
            }
            assert(word_len(cs@.skip(i as int)) == 0);
            assert(word_len(rest) == i - start);
            let ghost before = texts(r@);
            let word = text_between(&cs, start, i);
            assert(rest.take(i - start) == word@);
            assert(rest.skip(i - start) == cs@.skip(i as int));
            let ghost tail = words_of(cs@.skip(i as int));
            r.push(word);
            assert(texts(r@) == before.push(word@));
            assert(texts(r@) + tail == before + (seq![word@] + tail));
            proof {
                word_len_bounds(rest);
            }
        }
    }
    assert(cs@.skip(i as int).len() == 0);
    assert(texts(r@) + words_of(cs@.skip(i as int)) == texts(r@));
    r
}

/// What is left of `s` behind `prefix`, when it starts with that prefix.
pub fn strip_prefix(s: &str, prefix: &str) -> (r: Option<String>)
    ensures
        match r {
            Some(t) => prefix@.is_prefix_of(s@) && t@ == s@.skip(prefix@.len() as int),
            None => !prefix@.is_prefix_of(s@),
        },
{
    let cs = chars_of(s);
    let ps = chars_of(prefix);
    if ps.len() > cs.len() {
        return None;
    }
    for i in 0..ps.len()
        invariant
            cs@ == s@,
            ps@ == prefix@,
            ps@.len() <= cs@.len(),
            forall|j: int| 0 <= j < i ==> ps@[j] == cs@[j],
    {
        if ps[i] != cs[i] {
            assert(s@.take(prefix@.len() as int)[i as int] != prefix@[i as int]);
            return None;
        }
    }
    assert(prefix@ == s@.take(prefix@.len() as int));
    let t = text_between(&cs, ps.len(), cs.len());
    Some(t)
}

/// How many characters stand before the first `-`.
pub open spec fn dash_at(s: Seq<char>) -> nat
    decreases s.len(),
{
    if s.len() == 0 || s[0] == '-' {
        0
    } else {
        1 + dash_at(s.drop_first())
    }
}

/// The part of `s` before its first `-`; all of `s` when it holds none.
pub open spec fn before_dash(s: Seq<char>) -> Seq<char> {
    s.take(dash_at(s) as int)
}

/// Cuts a text off at its first `-`.
pub fn first_dash_part(s: &str) -> (r: String)
    ensures
        r@ == before_dash(s@),
{
    let cs = chars_of(s);
    let mut i: usize = 0;
    assert(cs@.skip(0) == cs@);
    while i < cs.len() && cs[i] != '-'
        invariant
            i <= cs@.len(),
            dash_at(cs@) == i + dash_at(cs@.skip(i as int)),
        decreases cs@.len() - i,
    {
        assert(cs@.skip(i as int).drop_first() == cs@.skip(i + 1));
        i = i + 1;
    }
    assert(dash_at(cs@.skip(i as int)) == 0);
    text_between(&cs, 0, i)
}

/// The lower-case form of an ASCII letter; any other character itself.
pub open spec fn ascii_lower(c: char) -> char {
    if 'A' <= c && c <= 'Z' {
        (c as u8 + 32) as char
    } else {
        c
    }
}

/// `s` with its ASCII letters in lower case.
pub open spec fn lower_case(s: Seq<char>) -> Seq<char> {
    s.map_values(|c: char| ascii_lower(c))
}

/// Puts the ASCII letters of a text in lower case.
pub fn to_lower(s: &str) -> (r: String)
    ensures
        r@ == lower_case(s@),
{
    let cs = chars_of(s);
    let mut r = String::new();
    for i in 0..cs.len()
        invariant
            cs@ == s@,
            r@ == lower_case(s@.take(i as int)),
    {
        let c = cs[i];
        let l = if 'A' <= c && c <= 'Z' {
            (c as u8 + 32) as char
        } else {
            c
        };
        r.push(l);
        assert(s@.take(i + 1) == s@.take(i as int).push(s@[i as int]));
        assert(lower_case(s@.take(i + 1)) == lower_case(s@.take(i as int)).push(ascii_lower(c)));
    }
    assert(s@.take(s@.len() as int) == s@);
    r
}

/// Whether a character is an ASCII decimal digit.
pub open spec fn is_digit(c: char) -> bool {
    '0' <= c && c <= '9'
}

/// The number that a sequence of decimal digits stands for.
pub open spec fn digits_value(s: Seq<char>) -> nat
    decreases s.len(),
{
    if s.len() == 0 {
        0
    } else {
        10 * digits_value(s.drop_last()) + (s.last() as nat - 48) as nat
    }
}

/// Whether a text is made of decimal digits, at least one.
pub open spec fn all_digits(s: Seq<char>) -> bool {
    s.len() > 0 && forall|i: int| 0 <= i < s.len() ==> is_digit(#[trigger] s[i])
}

/// `s` without a leading `+`.
pub open spec fn unsigned_digits(s: Seq<char>) -> Seq<char> {
    if s.len() > 0 && s[0] == '+' {
        s.drop_first()
    } else {
        s
    }
}

/// An unsigned number no larger than `max`: digits only, behind an optional `+`.
pub open spec fn unsigned_value(s: Seq<char>, max: nat) -> Option<nat> {
    if all_digits(unsigned_digits(s)) && digits_value(unsigned_digits(s)) <= max {
        Some(digits_value(unsigned_digits(s)))
    } else {
        None
    }
}

proof fn digits_value_grows(s: Seq<char>, k: int)
    requires
        0 <= k <= s.len(),
        forall|i: int| 0 <= i < s.len() ==> is_digit(#[trigger] s[i]),
    ensures
        digits_value(s.take(k)) <= digits_value(s),
    decreases s.len() - k,
{
    if k < s.len() {
        digits_value_grows(s, k + 1);
        assert(s.take(k + 1).drop_last() == s.take(k));
    } else {
        assert(s.take(k) == s);
    }
}

/// Reads an unsigned decimal number no larger than `max`.
pub fn parse_unsigned(s: &str, max: u64) -> (r: Option<u64>)
    ensures
        match r {
            Some(n) => unsigned_value(s@, max as nat) == Some(n as nat),
            None => unsigned_value(s@, max as nat) is None,
        },
{
    let cs = chars_of(s);
    let start: usize = if cs.len() > 0 && cs[0] == '+' {
        1
    } else {
        0
    };
    let ghost digits = cs@.skip(start as int);
    assert(digits == unsigned_digits(s@));
    if start == cs.len() {
        return None;
    }
    let mut value: u64 = 0;
    for i in start..cs.len()
        invariant
            cs@ == s@,
            start <= 1,
            start < cs@.len(),
            digits == cs@.skip(start as int),
            digits == unsigned_digits(s@),
            value <= max,
            value == digits_value(digits.take(i - start)),
            forall|j: int| 0 <= j < i - start ==> is_digit(#[trigger] digits[j]),
    {
        let c = cs[i];
        assert(c == digits[i - start]);
        if c < '0' || c > '9' {
            assert(!is_digit(digits[i - start]));
            return None;
        }
        let d: u64 = (c as u32 - 48) as u64;
        assert(digits.take(i - start + 1).drop_last() == digits.take(i - start));
        if value > max / 10 || d > max - value * 10 {
            proof {
                assert(digits_value(digits.take(i - start + 1)) == 10 * value + d);
                assert(value * 10 + d > max) by (nonlinear_arith)
                    requires
                        value > max / 10 || d > max - value * 10,
                        0 <= d,
                ;
                if all_digits(digits) {
                    digits_value_grows(digits, i - start + 1);
                }
            }
            return None;
        }
        value = value * 10 + d;
    }
    assert(digits.take(digits.len() as int) == digits);
    Some(value)
}

} // verus!
