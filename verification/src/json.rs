//! Reading numbers out of JSON values.
//!
//! The values come parsed, as `serde_json::Value`. The contracts below speak of
//! what such a value holds through [`json_view`] and [`number_view`].
use crate::float_bits::{clamped, finite64, int_to_double, to_i64, to_u64, truncated};
use vstd::prelude::*;

verus! {

/// `serde_json::Number`, held and handed on; its contents are [`number_view`].
#[verifier::external_type_specification]
#[verifier::external_body]
pub struct ExNumber(serde_json::Number);

/// `serde_json::Value`, held and handed on; its contents are [`json_view`].
#[verifier::external_type_specification]
#[verifier::external_body]
pub struct ExValue(serde_json::Value);

/// What a JSON number holds: an integer, or the bits of a double.
pub enum NumberView {
    Int(int),
    Float(u64),
}

/// What a JSON value holds, as far as tensor data is concerned. Anything but a
/// number or an array counts by its compact JSON text.
pub enum JsonView {
    Number(NumberView),
    Array(Seq<JsonView>),
    Other(Seq<char>),
}

/// The contents of a `serde_json::Number`.
pub uninterp spec fn number_view(n: serde_json::Number) -> NumberView;

/// The contents of a `serde_json::Value`.
pub uninterp spec fn json_view(v: serde_json::Value) -> JsonView;

/// The text that `Display` gives a number.
pub uninterp spec fn number_text(n: NumberView) -> Seq<char>;

/// The contents of a list of JSON values.
pub open spec fn json_views(items: Seq<serde_json::Value>) -> Seq<JsonView> {
    items.map_values(|v: serde_json::Value| json_view(v))
}

/// The contents of a list of borrowed numbers.
pub open spec fn number_views(ns: Seq<&serde_json::Number>) -> Seq<NumberView> {
    ns.map_values(|n: &serde_json::Number| number_view(*n))
}

/// `serde_json::Value::as_array`: the items when the value is an array, and
/// `None` otherwise.
pub assume_specification[ serde_json::Value::as_array ](v: &serde_json::Value) -> (r: Option<
    &Vec<serde_json::Value>,
>)
    ensures
        match r {
            Some(items) => json_view(*v) == JsonView::Array(json_views(items@)),
            None => !(json_view(*v) is Array),
        },
;

/// `serde_json::Value::as_number`: the number when the value is one, and `None`
/// otherwise.
pub assume_specification[ serde_json::Value::as_number ](v: &serde_json::Value) -> (r: Option<
    &serde_json::Number,
>)
    ensures
        match r {
            Some(n) => json_view(*v) == JsonView::Number(number_view(*n)),
            None => !(json_view(*v) is Number),
        },
;

/// `Display` of `serde_json::Value`: its compact JSON text, which is how
/// [`json_view`] counts a value that is neither number nor array.
#[verifier::external_body]
fn value_text(v: &serde_json::Value) -> (r: String)
    ensures
        json_view(*v) matches JsonView::Other(t) ==> r@ == t,
{
    v.to_string()
}

/// `Display` of `serde_json::Number`. The contract only says that the text is a
/// function of what the number holds.
#[verifier::external_body]
fn display_number(n: &serde_json::Number) -> (r: String)
    ensures
        r@ == number_text(number_view(*n)),
{
    n.to_string()
}

/// `serde_json::Number::as_i64`: an integer in the range of `i64`; `None` for
/// other integers and for doubles.
pub assume_specification[ serde_json::Number::as_i64 ](n: &serde_json::Number) -> (r: Option<i64>)
    ensures
        r == (match number_view(*n) {
            NumberView::Int(i) => if i64::MIN <= i <= i64::MAX {
                Some(i as i64)
            } else {
                None
            },
            NumberView::Float(_) => None,
        }),
;

/// `serde_json::Number::as_u64`: an integer in the range of `u64`; `None` for
/// other integers and for doubles.
pub assume_specification[ serde_json::Number::as_u64 ](n: &serde_json::Number) -> (r: Option<u64>)
    ensures
        r == (match number_view(*n) {
            NumberView::Int(i) => if 0 <= i <= u64::MAX {
                Some(i as u64)
            } else {
                None
            },
            NumberView::Float(_) => None,
        }),
;

/// `serde_json::Number::as_f64`, by its bits: a double as it is, an integer
/// rounded to the nearest double. The result is always there and finite, since
/// a JSON number is.
#[verifier::external_body]
pub(crate) fn as_f64_bits(n: &serde_json::Number) -> (r: Option<u64>)
    ensures
        r == Some(number_f64(number_view(*n))),
        finite64(r->0),
{
    n.as_f64().map(|x| x.to_bits())
}

/// A number in double precision, by its bits.
pub open spec fn number_f64(n: NumberView) -> u64 {
    match n {
        NumberView::Int(i) => int_to_double(i),
        NumberView::Float(b) => b,
    }
}

/// A number for a signed slot: an integer as it is where it fits, otherwise what
/// is left of the double after dropping the fraction and clamping.
pub open spec fn number_i64(n: NumberView) -> i64 {
    match n {
        NumberView::Int(i) if i64::MIN <= i <= i64::MAX => i as i64,
        _ => clamped(truncated(number_f64(n)), i64::MIN as int, i64::MAX as int) as i64,
    }
}

/// A number for an unsigned slot, in the same way.
pub open spec fn number_u64(n: NumberView) -> u64 {
    match n {
        NumberView::Int(i) if 0 <= i <= u64::MAX => i as u64,
        _ => clamped(truncated(number_f64(n)), 0, u64::MAX as int) as u64,
    }
}

/// Reads a number for a signed slot. Integers keep full precision; a double such
/// as `1.0` is accepted too.
pub fn number_as_i64(n: &serde_json::Number) -> (r: Option<i64>)
    ensures
        r == Some(number_i64(number_view(*n))),
{
    match n.as_i64() {
        Some(i) => Some(i),
        None => match as_f64_bits(n) {
            Some(b) => Some(to_i64(b)),
            None => None,
        },
    }
}

/// Reads a number for an unsigned slot, in the same way.
pub fn number_as_u64(n: &serde_json::Number) -> (r: Option<u64>)
    ensures
        r == Some(number_u64(number_view(*n))),
{
    match n.as_u64() {
        Some(i) => Some(i),
        None => match as_f64_bits(n) {
            Some(b) => Some(to_u64(b)),
            None => None,
        },
    }
}

/// The numbers of a JSON value in row-major order, however the arrays nest; an
/// error text at the first element that is neither number nor array.
pub open spec fn flattened(j: JsonView) -> Result<Seq<NumberView>, Seq<char>>
    decreases j,
{
    match j {
        JsonView::Number(n) => Ok(seq![n]),
        JsonView::Array(items) => flattened_items(items, items.len()),
        JsonView::Other(t) => Err("unsupported element in data: "@ + t),
    }
}

/// The numbers of the first `n` items.
pub open spec fn flattened_items(items: Seq<JsonView>, n: nat) -> Result<
    Seq<NumberView>,
    Seq<char>,
>
    decreases items, n,
{
    if n == 0 || n > items.len() {
        Ok(Seq::empty())
    } else {
        match flattened_items(items, (n - 1) as nat) {
            Err(e) => Err(e),
            Ok(head) => match flattened(items[n - 1]) {
                Err(e) => Err(e),
                Ok(tail) => Ok(head + tail),
            },
        }
    }
}

/// The numbers of a JSON value before the first element that is neither number
/// nor array; all of them where there is no such element.
pub open spec fn leading_numbers(j: JsonView) -> Seq<NumberView>
    decreases j,
{
    match j {
        JsonView::Number(n) => seq![n],
        JsonView::Array(items) => leading_numbers_of_items(items, items.len()),
        JsonView::Other(_) => Seq::empty(),
    }
}

/// The leading numbers of the first `n` items.
pub open spec fn leading_numbers_of_items(items: Seq<JsonView>, n: nat) -> Seq<NumberView>
    decreases items, n,
{
    if n == 0 || n > items.len() {
        Seq::empty()
    } else {
        let head = leading_numbers_of_items(items, (n - 1) as nat);
        if flattened_items(items, (n - 1) as nat) is Err {
            head
        } else {
            head + leading_numbers(items[n - 1])
        }
    }
}

/// A value without a fault is flattened to its leading numbers.
pub proof fn leading_numbers_are_all_without_a_fault(j: JsonView)
    ensures
        flattened(j) matches Ok(ns) ==> ns == leading_numbers(j),
    decreases j,
{
    if let JsonView::Array(items) = j {
        assert(decreases_to!(j => j->Array_0));
        leading_numbers_of_items_are_all(items, items.len());
    }
}

proof fn leading_numbers_of_items_are_all(items: Seq<JsonView>, n: nat)
    ensures
        flattened_items(items, n) matches Ok(ns) ==> ns == leading_numbers_of_items(items, n),
    decreases items, n,
{
    if 0 < n <= items.len() {
        leading_numbers_of_items_are_all(items, (n - 1) as nat);
        leading_numbers_are_all_without_a_fault(items[n - 1]);
    }
}

proof fn first_fault_decides(items: Seq<JsonView>, k: nat, n: nat)
    requires
        k <= n <= items.len(),
        flattened_items(items, k) is Err,
    ensures
        flattened_items(items, n) == flattened_items(items, k),
        leading_numbers_of_items(items, n) == leading_numbers_of_items(items, k),
    decreases n,
{
    if k < n {
        first_fault_decides(items, k, (n - 1) as nat);
    }
}

/// Appends the numbers of `v` to `out`, up to the first element that is neither
/// number nor array.
pub fn collect_numbers<'a>(v: &'a serde_json::Value, out: &mut Vec<&'a serde_json::Number>) -> (r:
    Result<(), String>)
    ensures
        match flattened(json_view(*v)) {
            Ok(ns) => r is Ok && number_views(final(out)@) == number_views(old(out)@) + ns,
            Err(e) => r matches Err(m) && m@ == e,
        },
        number_views(final(out)@) == number_views(old(out)@) + leading_numbers(json_view(*v)),
    decreases json_view(*v),
{
    if let Some(items) = v.as_array() {
        let ghost views = json_views(items@);
        for i in 0..items.len()
            invariant
                json_view(*v) == JsonView::Array(views),
                views == json_views(items@),
                flattened_items(views, i as nat) is Ok,
                number_views(out@) == number_views(old(out)@) + leading_numbers_of_items(
                    views,
                    i as nat,
                ),
        {
            assert(views[i as int] == json_view(items@[i as int]));
            assert(decreases_to!(json_view(*v) => json_view(*v)->Array_0));
            assert(decreases_to!(json_view(*v) => json_view(items@[i as int])));
            let r = collect_numbers(&items[i], out);
            assert(number_views(out@) =~= number_views(old(out)@) + leading_numbers_of_items(
                views,
                (i + 1) as nat,
            ));
            if let Err(m) = r {
                proof {
                    first_fault_decides(views, (i + 1) as nat, views.len());
                }
                return Err(m);
            }
        }
        proof {
            leading_numbers_are_all_without_a_fault(json_view(*v));
        }
        return Ok(());
    }
    if let Some(n) = v.as_number() {
        let ghost before = out@;
        out.push(n);
        assert(number_views(out@) == number_views(before) + seq![number_view(*n)]);
        return Ok(());
    }
    assert(number_views(out@) =~= number_views(old(out)@) + Seq::<NumberView>::empty());
    let mut message = "unsupported element in data: ".to_string();
    message.append(value_text(v).as_str());
    Err(message)
}

/// Whether `f` may convert a number.
pub open spec fn converts<T, F: Fn(&serde_json::Number) -> Option<T>>(
    f: F,
    n: &serde_json::Number,
) -> bool {
    exists|x: T| call_ensures(f, (n,), Some(x))
}

/// Converts every number with `f`; the error names the first one that `f` does
/// not convert.
pub fn map_nums<T, F: Fn(&serde_json::Number) -> Option<T>>(
    nums: &Vec<&serde_json::Number>,
    f: F,
) -> (r: Result<Vec<T>, String>)
    requires
        forall|n: &serde_json::Number| call_requires(f, (n,)),
    ensures
        match r {
            Ok(v) => v@.len() == nums@.len() && forall|i: int|
                0 <= i < v@.len() ==> call_ensures(f, (nums@[i],), Some(#[trigger] v@[i])),
            Err(m) => exists|i: int|
                0 <= i < nums@.len() && call_ensures(f, (#[trigger] nums@[i],), None) && m@
                    == "number "@ + number_text(number_view(*nums@[i]))
                    + " not convertible to the target dtype"@ && forall|j: int|
                    0 <= j < i ==> converts(f, #[trigger] nums@[j]),
        },
{
    let mut out: Vec<T> = Vec::new();
    for i in 0..nums.len()
        invariant
            forall|n: &serde_json::Number| call_requires(f, (n,)),
            out@.len() == i,
            forall|j: int| 0 <= j < i ==> call_ensures(f, (nums@[j],), Some(#[trigger] out@[j])),
    {
        let n: &serde_json::Number = nums[i];
        match f(n) {
            Some(x) => out.push(x),
            None => {
                let mut message = "number ".to_string();
                message.append(display_number(n).as_str());
                message.append(" not convertible to the target dtype");
                assert(call_ensures(f, (nums@[i as int],), None));
                assert forall|j: int| 0 <= j < i implies converts(f, #[trigger] nums@[j]) by {
                    assert(call_ensures(f, (nums@[j],), Some(out@[j])));
                }
                return Err(message);
            },
        }
    }
    Ok(out)
}

} // verus!
