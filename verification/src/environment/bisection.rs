//! Bisection of ordered arrays: the search for the elements that enclose a
//! target value. Arrays may be sorted in either direction; the direction is
//! read off the first and the last element.
//!
//! The arrays hold order keys (see [`crate::ordering`]), so one search serves
//! coordinates and heights alike.

use crate::errors::SearchError;
use vstd::prelude::*;

verus! {

/// Every element is at most as large as each element after it.
pub open spec fn ascending(s: Seq<i64>) -> bool {
    forall|i: int, j: int| 0 <= i <= j < s.len() ==> s[i] <= s[j]
}

/// Every element is at least as large as each element after it.
pub open spec fn descending(s: Seq<i64>) -> bool {
    forall|i: int, j: int| 0 <= i <= j < s.len() ==> s[i] >= s[j]
}

/// The direction that the search assumes: upwards exactly when the first
/// element is smaller than the last.
pub open spec fn runs_upwards(s: Seq<i64>) -> bool {
    s.len() > 0 && s.first() < s.last()
}

/// The array is sorted in the direction that the search assumes for it.
pub open spec fn sorted(s: Seq<i64>) -> bool {
    if runs_upwards(s) {
        ascending(s)
    } else {
        descending(s)
    }
}

/// The target lies strictly outside the span between the first and the last
/// element.
pub open spec fn outside_span(s: Seq<i64>, x: i64) -> bool {
    s.len() > 0 && ((x < s.first() && x < s.last()) || (x > s.first() && x > s.last()))
}

/// The element at `i` has reached the target: walking along the array in its
/// direction, it is the target or lies past it.
pub open spec fn reached(s: Seq<i64>, x: i64, i: int) -> bool {
    if runs_upwards(s) {
        s[i] >= x
    } else {
        s[i] <= x
    }
}

/// `i` is a place where the array crosses the target: the element at `i` has
/// reached it and the element before has not.
pub open spec fn crossing(s: Seq<i64>, x: i64, i: int) -> bool {
    &&& 0 <= i < s.len()
    &&& reached(s, x, i)
    &&& i > 0 ==> !reached(s, x, i - 1)
}

/// `i` is a closest element at or before the target: it is the target at a
/// crossing, or the crossing follows it directly.
pub open spec fn left_closest(s: Seq<i64>, x: i64, i: int) -> bool {
    ||| (s[i] == x && crossing(s, x, i))
    ||| (s[i] != x && crossing(s, x, i + 1))
}

/// `i` is a closest element at or after the target: a crossing.
pub open spec fn right_closest(s: Seq<i64>, x: i64, i: int) -> bool {
    crossing(s, x, i)
}

/// Linear scan from `from` for the first element that has reached the target;
/// the length of the array if there is none.
pub open spec fn scan_first_reached(s: Seq<i64>, x: i64, from: int) -> int
    decreases s.len() - from,
{
    if from < 0 || from >= s.len() {
        s.len() as int
    } else if reached(s, x, from) {
        from
    } else {
        scan_first_reached(s, x, from + 1)
    }
}

/// What a linear scan gives for the closest element at or after the target.
pub open spec fn scan_right_closest(s: Seq<i64>, x: i64) -> int {
    scan_first_reached(s, x, 0)
}

/// What a linear scan gives for the closest element at or before the target:
/// the first element that has reached the target if it is the target itself,
/// the element before it otherwise.
pub open spec fn scan_left_closest(s: Seq<i64>, x: i64) -> int {
    let r = scan_first_reached(s, x, 0);
    if 0 <= r < s.len() && s[r] == x {
        r
    } else {
        r - 1
    }
}

/// The scan started at `from` finds the first reached element at or after
/// `from`, and none before its result.
pub proof fn lemma_scan_first_reached(s: Seq<i64>, x: i64, from: int)
    requires
        0 <= from <= s.len(),
    ensures
        from <= scan_first_reached(s, x, from) <= s.len(),
        scan_first_reached(s, x, from) < s.len() ==> reached(
            s,
            x,
            scan_first_reached(s, x, from),
        ),
        forall|j: int| from <= j < scan_first_reached(s, x, from) ==> !reached(s, x, j),
    decreases s.len() - from,
{
    if from < s.len() && !reached(s, x, from) {
        lemma_scan_first_reached(s, x, from + 1);
    }
}

/// In a sorted array a crossing is where the linear scan stops: there is
/// only one.
pub proof fn lemma_crossing_is_scan(s: Seq<i64>, x: i64, i: int)
    requires
        sorted(s),
        crossing(s, x, i),
    ensures
        i == scan_first_reached(s, x, 0),
{
    lemma_scan_first_reached(s, x, 0);
    let r = scan_first_reached(s, x, 0);
    if r < i {
        // the element at r has reached the target, so has every later one
        assert(reached(s, x, r));
        assert(reached(s, x, i - 1));
    }
}

/// What the search for the closest element at or before the target gives on
/// a sorted array, by linear scan: the errors of the search, or the index.
pub open spec fn scan_search_left(s: Seq<i64>, x: i64) -> Result<int, SearchError> {
    if s.len() == 0 {
        Err(SearchError::EmptyArray)
    } else if outside_span(s, x) {
        Err(SearchError::OutOfBounds)
    } else {
        Ok(scan_left_closest(s, x))
    }
}

/// Neighbours in order make the whole array ordered.
proof fn lemma_neighbours_ascending(s: Seq<i64>, i: int, j: int)
    requires
        forall|a: int| 0 <= a < s.len() - 1 ==> s[a] <= #[trigger] s[a + 1],
        0 <= i <= j < s.len(),
    ensures
        s[i] <= s[j],
    decreases j - i,
{
    if i < j {
        lemma_neighbours_ascending(s, i, j - 1);
        assert(s[j - 1] <= s[j - 1 + 1]);
    }
}

/// Neighbours in order make the whole array ordered.
proof fn lemma_neighbours_descending(s: Seq<i64>, i: int, j: int)
    requires
        forall|a: int| 0 <= a < s.len() - 1 ==> s[a] >= #[trigger] s[a + 1],
        0 <= i <= j < s.len(),
    ensures
        s[i] >= s[j],
    decreases j - i,
{
    if i < j {
        lemma_neighbours_descending(s, i, j - 1);
        assert(s[j - 1] >= s[j - 1 + 1]);
    }
}

/// Tells whether the array is sorted in the direction that the search
/// assumes for it.
pub fn is_sorted(array: &[i64]) -> (b: bool)
    ensures
        b == sorted(array@),
{
    let n: usize = array.len();
    if n < 2 {
        return true;
    }
    let upwards: bool = array[0] < array[n - 1];
    let mut a: usize = 0;
    while a < n - 1
        invariant
            a <= n - 1,
            n == array@.len(),
            n >= 2,
            upwards == runs_upwards(array@),
            upwards ==> forall|c: int| 0 <= c < a ==> array@[c] <= #[trigger] array@[c + 1],
            !upwards ==> forall|c: int| 0 <= c < a ==> array@[c] >= #[trigger] array@[c + 1],
        decreases n - 1 - a,
    {
        if upwards {
            if array[a] > array[a + 1] {
                return false;
            }
        } else {
            if array[a] < array[a + 1] {
                return false;
            }
        }
        a += 1;
    }
    proof {
        if upwards {
            assert forall|i: int, j: int| 0 <= i <= j < array@.len() implies array@[i]
                <= array@[j] by {
                lemma_neighbours_ascending(array@, i, j);
            }
        } else {
            assert forall|i: int, j: int| 0 <= i <= j < array@.len() implies array@[i]
                >= array@[j] by {
                lemma_neighbours_descending(array@, i, j);
            }
        }
    }
    true
}

/// In a sorted array whose span holds the target, the two closest elements
/// that a linear scan finds enclose the target: they are neighbours or one
/// element, the target lies between them, and no element of the array lies
/// strictly between either of them and the target. They are one element
/// exactly when the target is in the array.
pub proof fn lemma_closest_enclose(s: Seq<i64>, x: i64)
    requires
        sorted(s),
        s.len() > 0,
        !outside_span(s, x),
    ensures
        0 <= scan_left_closest(s, x) <= scan_right_closest(s, x) < s.len(),
        scan_right_closest(s, x) - scan_left_closest(s, x) <= 1,
        scan_left_closest(s, x) == scan_right_closest(s, x) <==> s.contains(x),
        runs_upwards(s) ==> s[scan_left_closest(s, x)] <= x <= s[scan_right_closest(s, x)],
        !runs_upwards(s) ==> s[scan_left_closest(s, x)] >= x >= s[scan_right_closest(s, x)],
        forall|j: int|
            0 <= j < s.len() ==> !(s[scan_left_closest(s, x)] < #[trigger] s[j] < x) && !(x < s[j]
                < s[scan_left_closest(s, x)]),
        forall|j: int|
            0 <= j < s.len() ==> !(s[scan_right_closest(s, x)] < #[trigger] s[j] < x) && !(x < s[j]
                < s[scan_right_closest(s, x)]),
{
    lemma_scan_first_reached(s, x, 0);
    let r = scan_first_reached(s, x, 0);
    // the last element has reached the target, so the scan stops in the array
    assert(reached(s, x, s.len() - 1));
    assert(r < s.len());
    if r == 0 {
        // the first element has not passed the target, so it is the target
        assert(s[0] == x);
    }
    if r > 0 {
        assert(!reached(s, x, r - 1));
    }
    let l = scan_left_closest(s, x);
    if s.contains(x) {
        let p = choose|p: int| 0 <= p < s.len() && s[p] == x;
        assert(reached(s, x, p));
        assert(r <= p);
        assert(s[r] == x);
    }
    assert forall|j: int| 0 <= j < s.len() implies !(s[l] < #[trigger] s[j] < x) && !(x < s[j]
        < s[l]) by {
        if j < r {
            assert(!reached(s, x, j));
        }
    }
    assert forall|j: int| 0 <= j < s.len() implies !(s[r] < #[trigger] s[j] < x) && !(x < s[j]
        < s[r]) by {
        if j < r {
            assert(!reached(s, x, j));
        }
    }
}

/// Core bisection: finds a place where the array crosses the target.
///
/// Fails on an empty array and on a target outside the span of the array.
/// Otherwise the result is a crossing, and in a sorted array it is the one
/// that a linear scan from the front finds.
pub fn binary_search(array: &[i64], x: &i64) -> (r: Result<usize, SearchError>)
    ensures
        r == Err::<usize, SearchError>(SearchError::EmptyArray) <==> array@.len() == 0,
        r == Err::<usize, SearchError>(SearchError::OutOfBounds) <==> outside_span(array@, *x),
        r matches Ok(i) ==> crossing(array@, *x, i as int),
        r matches Ok(i) ==> (sorted(array@) ==> i == scan_first_reached(array@, *x, 0)),
{
    if array.len() == 0 {
        return Err(SearchError::EmptyArray);
    }
    let x: i64 = *x;
    let first: i64 = array[0];
    let last: i64 = array[array.len() - 1];

    if x < first && x < last || x > first && x > last {
        return Err(SearchError::OutOfBounds);
    }
    let mut lo: usize = 0;
    let mut hi: usize = array.len() - 1;

    if first < last {
        while lo < hi
            invariant
                lo <= hi < array@.len(),
                runs_upwards(array@),
                array@[hi as int] >= x,
                lo > 0 ==> array@[lo - 1] < x,
            decreases hi - lo,
        {
            let mid: usize = lo + (hi - lo) / 2;
            if array[mid] >= x {
                hi = mid;
            } else {
                lo = mid + 1;
            }
        }
    } else {
        while lo < hi
            invariant
                lo <= hi < array@.len(),
                !runs_upwards(array@),
                array@[hi as int] <= x,
                lo > 0 ==> array@[lo - 1] > x,
            decreases hi - lo,
        {
            let mid: usize = lo + (hi - lo) / 2;
            if array[mid] <= x {
                hi = mid;
            } else {
                lo = mid + 1;
            }
        }
    }
    proof {
        if sorted(array@) {
            lemma_crossing_is_scan(array@, x, lo as int);
        }
    }
    Ok(lo)
}

/// Finds the closest element at or before the target, in the order of the
/// array, and returns its index.
///
/// Fails on an empty array and on a target outside the span of the array.
/// Otherwise the element at the result is the target, and the first such
/// crossing, or the target lies strictly between it and its successor. In a
/// sorted array this is the index that a linear scan finds.
pub fn find_left_closest(array: &[i64], x: &i64) -> (r: Result<usize, SearchError>)
    ensures
        r == Err::<usize, SearchError>(SearchError::EmptyArray) <==> array@.len() == 0,
        r == Err::<usize, SearchError>(SearchError::OutOfBounds) <==> outside_span(array@, *x),
        r matches Ok(i) ==> 0 <= i < array@.len() && left_closest(array@, *x, i as int),
        r matches Ok(i) ==> (sorted(array@) ==> i == scan_left_closest(array@, *x)),
{
    let found_index: usize = match binary_search(array, x) {
        Ok(i) => i,
        Err(e) => {
            return Err(e);
        },
    };
    if array[found_index] == *x {
        Ok(found_index)
    } else {
        // the span holds the target, so the first element has not passed it
        Ok(found_index - 1)
    }
}

/// Finds the closest element at or after the target, in the order of the
/// array, and returns its index.
///
/// Fails on an empty array and on a target outside the span of the array.
/// Otherwise the result is a crossing: its element is the target or lies
/// past it, and the element before does not. In a sorted array this is the
/// index that a linear scan finds.
pub fn find_right_closest(array: &[i64], x: &i64) -> (r: Result<usize, SearchError>)
    ensures
        r == Err::<usize, SearchError>(SearchError::EmptyArray) <==> array@.len() == 0,
        r == Err::<usize, SearchError>(SearchError::OutOfBounds) <==> outside_span(array@, *x),
        r matches Ok(i) ==> right_closest(array@, *x, i as int),
        r matches Ok(i) ==> (sorted(array@) ==> i == scan_right_closest(array@, *x)),
{
    binary_search(array, x)
}

} // verus!
