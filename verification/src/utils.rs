//! Helpers shared by the editor and the reader.

pub mod color;

use vstd::prelude::*;
use vstd::std_specs::cmp::PartialEqSpec;

verus! {

/// Whether `needle` stands in `haystack` at index `at`, item for item.
pub open spec fn matches_at<T: PartialEq>(haystack: Seq<T>, needle: Seq<T>, at: int) -> bool {
    &&& 0 <= at
    &&& at + needle.len() <= haystack.len()
    &&& forall|k: int| 0 <= k < needle.len() ==> haystack[at + k].eq_spec(&#[trigger] needle[k])
}

/// Whether the window of `haystack` at `at` equals `needle`.
fn window_matches<T: PartialEq>(haystack: &[T], needle: &[T], at: usize) -> (r: bool)
    requires
        at + needle@.len() <= haystack@.len(),
    ensures
        T::obeys_eq_spec() ==> r == matches_at(haystack@, needle@, at as int),
{
    let hay_len = haystack.len();
    let mut k: usize = 0;
    while k < needle.len()
        invariant
            k <= needle@.len(),
            hay_len == haystack@.len(),
            at + needle@.len() <= haystack@.len(),
            T::obeys_eq_spec() ==> forall|j: int|
                0 <= j < k ==> haystack@[at + j].eq_spec(&#[trigger] needle@[j]),
        decreases needle@.len() - k,
    {
        if !(haystack[at + k] == needle[k]) {
            return false;
        }
        k += 1;
    }
    true
}

/// The first index at which `needle` stands in `haystack`, if it stands
/// anywhere. An empty needle stands at index 0.
pub fn find_subsequence<T: PartialEq>(haystack: &[T], needle: &[T]) -> (r: Option<usize>)
    ensures
        T::obeys_eq_spec() ==> match r {
            Some(at) => matches_at(haystack@, needle@, at as int) && forall|j: int|
                0 <= j < at ==> !matches_at(haystack@, needle@, j),
            None => forall|j: int| !matches_at(haystack@, needle@, j),
        },
{
    let needle_len = needle.len();
    if needle_len == 0 {
        return Some(0);
    }
    if haystack.len() < needle_len {
        return None;
    }
    let hay_len = haystack.len();
    let last = hay_len - needle_len;
    let mut i: usize = 0;
    while i <= last
        invariant
            i <= last + 1,
            hay_len == haystack@.len(),
            needle_len == needle@.len(),
            needle_len > 0,
            last + needle@.len() == haystack@.len(),
            T::obeys_eq_spec() ==> forall|j: int| 0 <= j < i ==> !matches_at(haystack@, needle@, j),
        decreases last + 1 - i,
    {
        if window_matches(haystack, needle, i) {
            return Some(i);
        }
        i += 1;
    }
    None
}

/// Every index at which `needle` stands in `haystack`, in rising order; for
/// an empty needle index 0 alone.
pub fn find_all_subsequences<T: PartialEq>(haystack: &[T], needle: &[T]) -> (r: Vec<usize>)
    ensures
        needle@.len() == 0 ==> r@ == seq![0usize],
        T::obeys_eq_spec() && needle@.len() > 0 ==> {
            &&& forall|a: int, b: int| 0 <= a < b < r@.len() ==> r@[a] < r@[b]
            &&& forall|a: int| 0 <= a < r@.len() ==> matches_at(haystack@, needle@, r@[a] as int)
            &&& forall|j: int|
                matches_at(haystack@, needle@, j) ==> exists|a: int|
                    0 <= a < r@.len() && r@[a] == j
        },
{
    let mut found: Vec<usize> = Vec::new();
    if needle.len() == 0 {
        found.push(0);
        return found;
    }
    if haystack.len() < needle.len() {
        return found;
    }
    let needle_len = needle.len();
    let hay_len = haystack.len();
    let last = hay_len - needle_len;
    let mut i: usize = 0;
    while i <= last
        invariant
            i <= last + 1,
            hay_len == haystack@.len(),
            needle_len == needle@.len(),
            needle@.len() > 0,
            last + needle@.len() == haystack@.len(),
            forall|a: int| 0 <= a < found@.len() ==> found@[a] < i,
            T::obeys_eq_spec() ==> {
                &&& forall|a: int, b: int| 0 <= a < b < found@.len() ==> found@[a] < found@[b]
                &&& forall|a: int|
                    0 <= a < found@.len() ==> matches_at(haystack@, needle@, found@[a] as int)
                &&& forall|j: int|
                    0 <= j < i && matches_at(haystack@, needle@, j) ==> exists|a: int|
                        0 <= a < found@.len() && found@[a] == j
            },
        decreases last + 1 - i,
    {
        if window_matches(haystack, needle, i) {
            let ghost before = found@;
            found.push(i);
            proof {
                if T::obeys_eq_spec() {
                    assert forall|j: int|
                        0 <= j < i + 1 && matches_at(haystack@, needle@, j) implies exists|a: int|
                        0 <= a < found@.len() && found@[a] == j by {
                        if j < i {
                            let a = choose|a: int| 0 <= a < before.len() && before[a] == j;
                            assert(found@[a] == j);
                        } else {
                            assert(found@[found@.len() - 1] == j);
                        }
                    }
                }
            }
        }
        i += 1;
    }
    found
}

} // verus!
