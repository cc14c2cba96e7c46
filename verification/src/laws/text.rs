//! Laws of the text functions.
use crate::text::{
    all_digits, before_dash, comma_separated, dash_at, decimal, decimal_nat, digits_value,
    is_white, list_text, lower_case, texts, trim_end, trim_start, trimmed, unsigned_value,
    word_len, words_of,
};
use vstd::prelude::*;

verus! {

/// Trimming cuts white space off both ends and nothing else: what is left is the
/// stretch from the first to the last character that is not white space.
pub proof fn trimming_cuts_the_ends(s: Seq<char>)
    ensures
        exists|i: int, j: int|
            0 <= i <= j <= s.len() && trimmed(s) == #[trigger] s.subrange(i, j) && (forall|k: int|
                0 <= k < i || j <= k < s.len() ==> is_white(#[trigger] s[k])) && (i < j
                ==> !is_white(s[i]) && !is_white(s[j - 1])),
{
    let i = leading_white(s);
    let rest = s.skip(i);
    let n = trailing_white(rest);
    let j = s.len() - n;
    assert(trimmed(s) =~= s.subrange(i, j));
    assert forall|k: int| 0 <= k < i || j <= k < s.len() implies is_white(#[trigger] s[k]) by {
        if k >= j {
            assert(rest[k - i] == s[k]);
        }
    }
    if i < j {
        assert(rest[0] == s[i]);
        assert(rest[j - i - 1] == s[j - 1]);
    }
}

proof fn leading_white(s: Seq<char>) -> (i: int)
    ensures
        0 <= i <= s.len(),
        trim_start(s) == s.skip(i),
        forall|k: int| 0 <= k < i ==> is_white(#[trigger] s[k]),
        i < s.len() ==> !is_white(s[i]),
    decreases s.len(),
{
    if s.len() > 0 && is_white(s[0]) {
        let rest = s.drop_first();
        let i = leading_white(rest);
        assert(rest.skip(i) =~= s.skip(i + 1));
        assert forall|k: int| 0 <= k < i + 1 implies is_white(#[trigger] s[k]) by {
            if k > 0 {
                assert(rest[k - 1] == s[k]);
            }
        }
        if i + 1 < s.len() {
            assert(rest[i] == s[i + 1]);
        }
        i + 1
    } else {
        assert(s.skip(0) =~= s);
        0
    }
}

proof fn trailing_white(s: Seq<char>) -> (n: int)
    ensures
        0 <= n <= s.len(),
        trim_end(s) == s.take(s.len() - n),
        forall|k: int| s.len() - n <= k < s.len() ==> is_white(#[trigger] s[k]),
        n < s.len() ==> !is_white(s[s.len() - n - 1]),
    decreases s.len(),
{
    if s.len() > 0 && is_white(s.last()) {
        let n = trailing_white(s.drop_last());
        assert(s.drop_last().take(s.len() - 1 - n) =~= s.take(s.len() - (n + 1)));
        assert forall|k: int| s.len() - (n + 1) <= k < s.len() implies is_white(
            #[trigger] s[k],
        ) by {
            if k < s.len() - 1 {
                assert(s.drop_last()[k] == s[k]);
            }
        }
        n + 1
    } else {
        assert(s.take(s.len() as int) =~= s);
        0
    }
}

/// The words of a text are the runs between white space: white space in front
/// changes nothing, and a run that ends at white space or at the end of the text is
/// a word of its own, in front of the words that follow.
pub proof fn words_are_the_runs_between_white_space(c: char, w: Seq<char>, s: Seq<char>)
    ensures
        words_of(Seq::empty()) == Seq::<Seq<char>>::empty(),
        is_white(c) ==> words_of(seq![c] + s) == words_of(s),
        w.len() > 0 && (forall|i: int| 0 <= i < w.len() ==> !is_white(#[trigger] w[i])) && (s.len()
            == 0 || is_white(s[0])) ==> words_of(w + s) == seq![w] + words_of(s),
{
    assert((seq![c] + s).drop_first() =~= s);
    if w.len() > 0 && (forall|i: int| 0 <= i < w.len() ==> !is_white(#[trigger] w[i])) && (s.len()
        == 0 || is_white(s[0])) {
        run_length(w, s);
        assert((w + s).take(w.len() as int) =~= w);
        assert((w + s).skip(w.len() as int) =~= s);
        assert((w + s)[0] == w[0]);
    }
}

proof fn run_length(w: Seq<char>, s: Seq<char>)
    requires
        forall|i: int| 0 <= i < w.len() ==> !is_white(#[trigger] w[i]),
        s.len() == 0 || is_white(s[0]),
    ensures
        word_len(w + s) == w.len(),
    decreases w.len(),
{
    if w.len() == 0 {
        assert(w + s =~= s);
    } else {
        assert((w + s).drop_first() =~= w.drop_first() + s);
        assert((w + s)[0] == w[0]);
        run_length(w.drop_first(), s);
    }
}

/// The part before the first dash is a prefix without a dash, and a dash follows
/// unless it is the whole text.
pub proof fn the_part_before_a_dash(s: Seq<char>)
    ensures
        before_dash(s).is_prefix_of(s),
        forall|i: int| 0 <= i < before_dash(s).len() ==> #[trigger] before_dash(s)[i] != '-',
        before_dash(s).len() < s.len() ==> s[before_dash(s).len() as int] == '-',
{
    first_dash(s);
    assert(before_dash(s) =~= s.take(before_dash(s).len() as int));
}

proof fn first_dash(s: Seq<char>)
    ensures
        dash_at(s) <= s.len(),
        forall|i: int| 0 <= i < dash_at(s) ==> #[trigger] s[i] != '-',
        dash_at(s) < s.len() ==> s[dash_at(s) as int] == '-',
    decreases s.len(),
{
    if s.len() > 0 && s[0] != '-' {
        let rest = s.drop_first();
        first_dash(rest);
        assert forall|i: int| 0 <= i < dash_at(s) implies #[trigger] s[i] != '-' by {
            if i > 0 {
                assert(rest[i - 1] == s[i]);
            }
        }
        if dash_at(s) < s.len() {
            assert(rest[dash_at(rest) as int] == s[dash_at(s) as int]);
        }
    }
}

/// Lower case moves the letters from `A` to `Z` up by 32 and leaves every other
/// character alone.
pub proof fn lower_case_moves_the_capitals(s: Seq<char>)
    ensures
        lower_case(s).len() == s.len(),
        forall|i: int|
            0 <= i < s.len() ==> (#[trigger] lower_case(s)[i]) as int == s[i] as int + (if 65
                <= s[i] as int <= 90 {
                32int
            } else {
                0
            }),
{
}

/// The value of decimal digits by their places.
pub open spec fn place_value(s: Seq<char>) -> int
    decreases s.len(),
{
    if s.len() == 0 {
        0
    } else {
        10 * place_value(s.drop_last()) + (s.last() as int - 48)
    }
}

/// Decimal notation: digits whose place value is the number, no zero in front, and
/// a minus sign in front of negative numbers.
pub proof fn decimal_notation_has_the_value(n: int)
    ensures
        n >= 0 ==> {
            &&& decimal(n).len() > 0
            &&& place_value(decimal(n)) == n
            &&& forall|i: int| 0 <= i < decimal(n).len() ==> 48 <= (#[trigger] decimal(n)[i]) as int
                <= 57
            &&& n >= 10 ==> decimal(n)[0] != '0'
            &&& n < 10 ==> decimal(n).len() == 1
        },
        n < 0 ==> decimal(n) == seq!['-'] + decimal(-n),
{
    if n >= 0 {
        natural_notation(n as nat);
    }
}

proof fn natural_notation(n: nat)
    ensures
        decimal_nat(n).len() > 0,
        place_value(decimal_nat(n)) == n,
        forall|i: int|
            0 <= i < decimal_nat(n).len() ==> 48 <= (#[trigger] decimal_nat(n)[i]) as int <= 57,
        n > 0 ==> decimal_nat(n)[0] != '0',
        n < 10 ==> decimal_nat(n).len() == 1,
    decreases n,
{
    let t = decimal_nat(n);
    if n < 10 {
        assert(t.drop_last() =~= Seq::empty());
        assert(place_value(t.drop_last()) == 0);
    } else {
        natural_notation(n / 10);
        assert(t.drop_last() =~= decimal_nat(n / 10));
    }
}

/// A list is written in brackets, with a comma and a space between its items.
pub proof fn lists_are_written_item_by_item(xs: Seq<i64>, x: i64)
    ensures
        list_text(Seq::empty()) == "["@ + "]"@,
        list_text(seq![x]) == "["@ + decimal(x as int) + "]"@,
        xs.len() > 0 ==> list_text(xs.push(x)) == list_text(xs).drop_last() + ", "@ + decimal(
            x as int,
        ) + "]"@,
{
    reveal_strlit("]");
    assert(comma_separated(Seq::empty()) =~= Seq::empty());
    assert(list_text(Seq::empty()) =~= "["@ + "]"@);
    if xs.len() > 0 {
        assert(xs.push(x).drop_last() =~= xs);
        assert(list_text(xs).drop_last() =~= "["@ + comma_separated(xs));
        assert(list_text(xs.push(x)) =~= list_text(xs).drop_last() + ", "@ + decimal(x as int)
            + "]"@);
    }
}

/// Whether a text is made of the digits `0` to `9`, at least one.
pub open spec fn is_number(s: Seq<char>) -> bool {
    s.len() > 0 && forall|i: int| 0 <= i < s.len() ==> 48 <= (#[trigger] s[i]) as int <= 57
}

/// Settings are read as plain decimal numbers: digits, with or without a plus sign
/// in front, give their place value if that is not above the limit, and nothing
/// else gives a number.
pub proof fn settings_are_decimal_numbers(s: Seq<char>, max: nat)
    ensures
        is_number(s) ==> place_value(s) >= 0,
        is_number(s) ==> unsigned_value(s, max) == (if place_value(s) <= max {
            Some(place_value(s) as nat)
        } else {
            None
        }),
        is_number(s) ==> unsigned_value(seq!['+'] + s, max) == unsigned_value(s, max),
        unsigned_value(s, max) is Some ==> is_number(s) || s[0] == '+' && is_number(s.skip(1)),
{
    if is_number(s) {
        same_value(s);
        assert((seq!['+'] + s).drop_first() =~= s);
        assert(all_digits(s));
    }
    if unsigned_value(s, max) is Some && s[0] == '+' {
        assert(s.drop_first() =~= s.skip(1));
    }
}

proof fn same_value(s: Seq<char>)
    requires
        forall|i: int| 0 <= i < s.len() ==> 48 <= (#[trigger] s[i]) as int <= 57,
    ensures
        place_value(s) == digits_value(s),
        place_value(s) >= 0,
    decreases s.len(),
{
    if s.len() > 0 {
        assert(forall|i: int| 0 <= i < s.drop_last().len() ==> s.drop_last()[i] == s[i]);
        same_value(s.drop_last());
    }
}

/// A number reads back from its decimal notation, as long as it is not above the
/// limit.
pub proof fn decimal_notation_reads_back(n: nat, max: nat)
    ensures
        unsigned_value(decimal(n as int), max) == (if n <= max {
            Some(n)
        } else {
            None
        }),
{
    decimal_notation_has_the_value(n as int);
    settings_are_decimal_numbers(decimal(n as int), max);
}

/// The texts of a list of strings are theirs, in order.
pub proof fn texts_are_those_of_the_strings(v: Seq<String>)
    ensures
        texts(v).len() == v.len(),
        forall|i: int| 0 <= i < v.len() ==> #[trigger] texts(v)[i] == v[i]@,
{
}

} // verus!
