//! The native functions that need neither the arithmetic of doubles nor the
//! outside world, and the parts of printing and of drawing random numbers
//! that need neither.

use vstd::prelude::*;
use rand::Rng;
use vstd::string::StringExecFns;
use crate::error::RuntimeError;
use crate::frontend::ast::string_views;
use crate::runtime::eval::operators::outcome;
use crate::runtime::number::{is_nan, less, magnitude, Number, SIGN};
use crate::runtime::values::{clone_value, value_views, RuntimeVal, ValueView};
use crate::text::chars_of;

verus! {

/// What `käänteinen` gives: the array that is its first argument, with
/// its elements in reverse order.
pub open spec fn reversed(args: Seq<ValueView>) -> Result<ValueView, RuntimeError> {
    if args.len() > 0 && args[0] is Array {
        Ok(ValueView::Array(args[0]->Array_0.reverse()))
    } else {
        Err(RuntimeError::InvalidArgument)
    }
}

/// `käänteinen`: computes [`reversed`].
pub fn reverse_function(args: Vec<RuntimeVal>, _scope: Vec<(String, RuntimeVal)>) -> (r: Result<
    RuntimeVal,
    RuntimeError,
>)
    ensures
        outcome(r) == reversed(value_views(args)),
{
    if args.len() == 0 {
        return Err(RuntimeError::InvalidArgument);
    }
    assert(value_views(args)[0] == args[0]@);
    match &args[0] {
        RuntimeVal::Array(array) => {
            let ghost views = value_views(*array);
            let mut turned: Vec<RuntimeVal> = Vec::new();
            let mut left: usize = array.len();
            while left > 0
                invariant
                    left <= array.len(),
                    turned.len() == array.len() - left,
                    views == value_views(*array),
                    forall|k: int|
                        0 <= k < turned.len() ==> (#[trigger] turned[k])@ == views[array.len() - 1
                            - k],
                decreases left,
            {
                left -= 1;
                assert(views[left as int] == array[left as int]@);
                turned.push(clone_value(&array[left]));
            }
            assert(value_views(turned) =~= views.reverse());
            Ok(RuntimeVal::Array(turned))
        },
        _ => Err(RuntimeError::InvalidArgument),
    }
}

/// What `pituus` counts: the elements of the array that is its first
/// argument.
pub open spec fn counted(args: Seq<ValueView>) -> Result<nat, RuntimeError> {
    if args.len() > 0 && args[0] is Array {
        Ok(args[0]->Array_0.len())
    } else {
        Err(RuntimeError::InvalidArgument)
    }
}

/// The number of elements that `pituus` gives as a double: computes
/// [`counted`].
pub fn length_of(args: &Vec<RuntimeVal>) -> (r: Result<usize, RuntimeError>)
    ensures
        match r {
            Ok(length) => counted(value_views(*args)) == Ok::<nat, RuntimeError>(length as nat),
            Err(e) => counted(value_views(*args)) == Err::<nat, RuntimeError>(e),
        },
{
    if args.len() == 0 {
        return Err(RuntimeError::InvalidArgument);
    }
    assert(value_views(*args)[0] == args[0]@);
    match &args[0] {
        RuntimeVal::Array(array) => Ok(array.len()),
        _ => Err(RuntimeError::InvalidArgument),
    }
}

/// A number of milliseconds in whole seconds, rounded towards zero.
pub open spec fn whole_seconds(millis: i64) -> int {
    if millis >= 0 {
        millis / 1000
    } else {
        -((-millis) / 1000)
    }
}

/// What `sekunnit` gives: the integer that is its first argument, as
/// whole seconds.
pub open spec fn seconds(args: Seq<ValueView>) -> Result<ValueView, RuntimeError> {
    if args.len() > 0 && args[0] is Integer {
        Ok(ValueView::Integer(whole_seconds(args[0]->Integer_0) as i64))
    } else {
        Err(RuntimeError::InvalidArgument)
    }
}

/// `sekunnit`: computes [`seconds`].
pub fn millis_to_seconds_function(args: Vec<RuntimeVal>, _scope: Vec<(String, RuntimeVal)>) -> (r:
    Result<RuntimeVal, RuntimeError>)
    ensures
        outcome(r) == seconds(value_views(args)),
{
    if args.len() == 0 {
        return Err(RuntimeError::InvalidArgument);
    }
    assert(value_views(args)[0] == args[0]@);
    match &args[0] {
        RuntimeVal::Integer(millis) => match millis.checked_div(1000) {
            Some(whole) => Ok(RuntimeVal::Integer(whole)),
            None => Err(RuntimeError::InvalidArgument),
        },
        _ => Err(RuntimeError::InvalidArgument),
    }
}

/// The bits of a number without its sign.
pub open spec fn unsigned(bits: u64) -> u64 {
    magnitude(bits) as u64
}

/// What `itseisarvo` gives: the absolute value of the number or integer
/// that is its first argument. The integer that has none in range is an
/// error.
pub open spec fn absolute(args: Seq<ValueView>) -> Result<ValueView, RuntimeError> {
    if args.len() == 0 {
        Err(RuntimeError::InvalidArgument)
    } else {
        match args[0] {
            ValueView::Number(bits) => Ok(ValueView::Number(unsigned(bits))),
            ValueView::Integer(i) => if i == i64::MIN {
                Err(RuntimeError::IntegerOverflow)
            } else if i < 0 {
                Ok(ValueView::Integer((-i) as i64))
            } else {
                Ok(ValueView::Integer(i))
            },
            _ => Err(RuntimeError::InvalidArgument),
        }
    }
}

/// `itseisarvo`: computes [`absolute`].
pub fn abs_function(args: Vec<RuntimeVal>, _scope: Vec<(String, RuntimeVal)>) -> (r: Result<
    RuntimeVal,
    RuntimeError,
>)
    ensures
        outcome(r) == absolute(value_views(args)),
{
    if args.len() == 0 {
        return Err(RuntimeError::InvalidArgument);
    }
    assert(value_views(args)[0] == args[0]@);
    match &args[0] {
        RuntimeVal::Number(n) => {
            if n.bits >= SIGN {
                Ok(RuntimeVal::Number(Number { bits: n.bits - SIGN }))
            } else {
                Ok(RuntimeVal::Number(*n))
            }
        },
        RuntimeVal::Integer(i) => {
            if *i == i64::MIN {
                Err(RuntimeError::IntegerOverflow)
            } else if *i < 0 {
                Ok(RuntimeVal::Integer(-*i))
            } else {
                Ok(RuntimeVal::Integer(*i))
            }
        },
        _ => Err(RuntimeError::InvalidArgument),
    }
}

/// Whether the placeholder `%{}` stands at `at`.
pub open spec fn placeholder_at(text: Seq<char>, at: nat) -> bool {
    at + 2 < text.len() && text[at as int] == '%' && text[at as int + 1] == '{' && text[at as int
        + 2] == '}'
}

/// The text from `from` on with each placeholder `%{}` replaced by the next
/// of `args`, of which `used` are used up. The text ends before the first
/// placeholder for which no argument is left; arguments that no placeholder
/// takes are ignored.
pub open spec fn interpolated(text: Seq<char>, from: nat, args: Seq<Seq<char>>, used: nat) -> Seq<
    char,
>
    decreases text.len() - from,
{
    if from >= text.len() {
        Seq::empty()
    } else if placeholder_at(text, from) {
        if used < args.len() {
            args[used as int] + interpolated(text, from + 3, args, used + 1)
        } else {
            Seq::empty()
        }
    } else {
        seq![text[from as int]] + interpolated(text, from + 1, args, used)
    }
}

/// What `tulosta` prints for a template and the texts of its further
/// arguments: computes [`interpolated`].
pub fn interpolate(template: &str, args: &Vec<String>) -> (out: String)
    ensures
        out@ == interpolated(template@, 0, string_views(args@), 0),
{
    let chars = chars_of(template);
    let ghost views = string_views(args@);
    let mut out = String::new();
    let mut i: usize = 0;
    let mut used: usize = 0;
    assert(out@ + interpolated(chars@, 0, views, 0) =~= interpolated(chars@, 0, views, 0));
    while i < chars.len()
        invariant
            i <= chars.len(),
            used <= args.len(),
            chars@ == template@,
            views == string_views(args@),
            interpolated(chars@, 0, views, 0) == out@ + interpolated(
                chars@,
                i as nat,
                views,
                used as nat,
            ),
        decreases chars.len() - i,
    {
        let ghost before = out@;
        let ghost rest = interpolated(chars@, i as nat, views, used as nat);
        if chars.len() - i > 2 && chars[i] == '%' && chars[i + 1] == '{' && chars[i + 2] == '}' {
            if used < args.len() {
                assert(views[used as int] == args[used as int]@);
                out.append(args[used].as_str());
                used += 1;
                i += 3;
                assert(before + rest =~= out@ + interpolated(chars@, i as nat, views, used as nat));
            } else {
                assert(before + rest =~= before);
                return out;
            }
        } else {
            out.push(chars[i]);
            i += 1;
            assert(before + rest =~= out@ + interpolated(chars@, i as nat, views, used as nat));
        }
    }
    assert(out@ + interpolated(chars@, i as nat, views, used as nat) =~= out@);
    out
}


/// Draws a whole number from a range that is not empty.
///
/// Calls `rand::Rng::gen_range` with the range `low..high` on the
/// generator of the thread, `rand::thread_rng()`. The call gives some
/// integer of the range, the lower bound included and the upper bound not;
/// which one is left to chance, so nothing more is claimed of it. On an
/// empty range the call panics, so the contract admits none. The generator
/// is seeded from the system when the thread first uses it, and panics
/// there if the system gives it no seed.
#[verifier::external_body]
fn sample(low: i64, high: i64) -> (drawn: i64)
    requires
        low < high,
    ensures
        low <= drawn < high,
{
    rand::thread_rng().gen_range(low..high)
}

/// The whole number that `satunnainen` draws between `low`, included, and
/// `high`, not included. Which number of the range it is, is left to
/// chance. An empty range is an error.
pub fn random_integer(low: i64, high: i64) -> (r: Result<i64, RuntimeError>)
    ensures
        r is Ok <==> low < high,
        r matches Ok(drawn) ==> low <= drawn < high,
        r matches Err(e) ==> e == RuntimeError::InvalidArgument,
{
    if low < high {
        Ok(sample(low, high))
    } else {
        Err(RuntimeError::InvalidArgument)
    }
}


/// The bits of a list of numbers.
pub open spec fn bits_of(numbers: Seq<Number>) -> Seq<u64> {
    Seq::new(numbers.len(), |i: int| numbers[i].bits)
}

/// The largest of `best` and the numbers from `from` on, found as
/// `maksimi` finds it: from left to right, a number takes the place of the
/// best so far if it is greater. A not-a-number is greater than nothing
/// and nothing is greater than it.
pub open spec fn largest_from(numbers: Seq<u64>, from: nat, best: u64) -> u64
    decreases numbers.len() - from,
{
    if from >= numbers.len() {
        best
    } else if less(best, numbers[from as int]) {
        largest_from(numbers, from + 1, numbers[from as int])
    } else {
        largest_from(numbers, from + 1, best)
    }
}

/// The smallest of `best` and the numbers from `from` on, found as
/// `minimi` finds it.
pub open spec fn smallest_from(numbers: Seq<u64>, from: nat, best: u64) -> u64
    decreases numbers.len() - from,
{
    if from >= numbers.len() {
        best
    } else if less(numbers[from as int], best) {
        smallest_from(numbers, from + 1, numbers[from as int])
    } else {
        smallest_from(numbers, from + 1, best)
    }
}

/// What `maksimi` gives for the numbers of its array: the largest, found
/// from the first on; nothing for an empty array.
pub fn largest(numbers: &Vec<Number>) -> (r: Option<Number>)
    ensures
        match r {
            Some(best) => numbers.len() > 0 && best.bits == largest_from(
                bits_of(numbers@),
                1,
                numbers[0].bits,
            ),
            None => numbers.len() == 0,
        },
{
    if numbers.len() == 0 {
        return None;
    }
    let ghost all = bits_of(numbers@);
    let mut best = numbers[0];
    let mut i: usize = 1;
    while i < numbers.len()
        invariant
            1 <= i <= numbers.len(),
            all == bits_of(numbers@),
            largest_from(all, 1, numbers[0].bits) == largest_from(all, i as nat, best.bits),
        decreases numbers.len() - i,
    {
        assert(all[i as int] == numbers[i as int].bits);
        if best.less_than(&numbers[i]) {
            best = numbers[i];
        }
        i += 1;
    }
    Some(best)
}

/// What `minimi` gives for the numbers of its array: the smallest, found
/// from the first on; nothing for an empty array.
pub fn smallest(numbers: &Vec<Number>) -> (r: Option<Number>)
    ensures
        match r {
            Some(best) => numbers.len() > 0 && best.bits == smallest_from(
                bits_of(numbers@),
                1,
                numbers[0].bits,
            ),
            None => numbers.len() == 0,
        },
{
    if numbers.len() == 0 {
        return None;
    }
    let ghost all = bits_of(numbers@);
    let mut best = numbers[0];
    let mut i: usize = 1;
    while i < numbers.len()
        invariant
            1 <= i <= numbers.len(),
            all == bits_of(numbers@),
            smallest_from(all, 1, numbers[0].bits) == smallest_from(all, i as nat, best.bits),
        decreases numbers.len() - i,
    {
        assert(all[i as int] == numbers[i as int].bits);
        if numbers[i].less_than(&best) {
            best = numbers[i];
        }
        i += 1;
    }
    Some(best)
}

/// Among numbers of which none is not-a-number, the largest is one of them
/// or the start, and none of them is greater.
pub proof fn lemma_largest_is_largest(numbers: Seq<u64>, from: nat, best: u64)
    requires
        !is_nan(best),
        forall|i: int| from <= i < numbers.len() ==> !is_nan(#[trigger] numbers[i]),
    ensures
        ({
            let found = largest_from(numbers, from, best);
            &&& !is_nan(found)
            &&& !less(found, best)
            &&& forall|i: int| from <= i < numbers.len() ==> !less(found, #[trigger] numbers[i])
            &&& found == best || exists|i: int| from <= i < numbers.len() && numbers[i] == found
        }),
    decreases numbers.len() - from,
{
    if from < numbers.len() {
        let next = if less(best, numbers[from as int]) {
            numbers[from as int]
        } else {
            best
        };
        lemma_largest_is_largest(numbers, from + 1, next);
        let found = largest_from(numbers, from, best);
        assert(found == largest_from(numbers, from + 1, next));
        if found != best && found == next {
            assert(numbers[from as int] == found);
        }
    }
}

/// Among numbers of which none is not-a-number, the smallest is one of
/// them or the start, and none of them is smaller.
pub proof fn lemma_smallest_is_smallest(numbers: Seq<u64>, from: nat, best: u64)
    requires
        !is_nan(best),
        forall|i: int| from <= i < numbers.len() ==> !is_nan(#[trigger] numbers[i]),
    ensures
        ({
            let found = smallest_from(numbers, from, best);
            &&& !is_nan(found)
            &&& !less(best, found)
            &&& forall|i: int| from <= i < numbers.len() ==> !less(#[trigger] numbers[i], found)
            &&& found == best || exists|i: int| from <= i < numbers.len() && numbers[i] == found
        }),
    decreases numbers.len() - from,
{
    if from < numbers.len() {
        let next = if less(numbers[from as int], best) {
            numbers[from as int]
        } else {
            best
        };
        lemma_smallest_is_smallest(numbers, from + 1, next);
        let found = smallest_from(numbers, from, best);
        assert(found == smallest_from(numbers, from + 1, next));
        if found != best && found == next {
            assert(numbers[from as int] == found);
        }
    }
}

} // verus!
