//! Queries over the resolved metadata table: ordinal lookups, inverse
//! lookups of the derived name forms, discriminant round trips, neighbor
//! navigation, range selection and name filtering.
//!
//! Every query walks the table in declaration order, so identical inputs
//! always produce identical answers.

use vstd::prelude::*;

use crate::expr::IntVal;
use crate::resolve::{ResolvedEnumMetadata, ResolvedVariant};
use crate::text::{contains_sub, has_prefix, has_suffix, str_contains, str_eq, str_has_prefix,
    str_has_suffix};

verus! {

impl ResolvedEnumMetadata {
    /// The number of variants.
    pub fn count(&self) -> (r: usize)
        ensures
            r == self.variants@.len(),
    {
        self.variants.len()
    }

    /// The row at the given ordinal, if it exists.
    pub fn variant_at(&self, ord: usize) -> (r: Option<&ResolvedVariant>)
        ensures
            match r {
                Some(rv) => ord < self.variants@.len() && *rv == self.variants@[ord as int],
                None => ord >= self.variants@.len(),
            },
    {
        if ord < self.variants.len() {
            Some(&self.variants[ord])
        } else {
            None
        }
    }

    /// The evaluated discriminant value at the given ordinal, if the variant
    /// declared one.
    pub fn discriminant_of(&self, ord: usize) -> (r: Option<IntVal>)
        requires
            ord < self.variants@.len(),
        ensures
            r == self.variants@[ord as int].discriminant_value,
    {
        self.variants[ord].discriminant_value
    }

    /// The ordinal of the first variant whose spaced-Pascal form equals `s`.
    pub fn from_pascal_spaced(&self, s: &str) -> (r: Option<usize>)
        ensures
            match r {
                Some(o) => o < self.variants@.len() && self.variants@[o as int].spaced_pascal@
                    == s@ && (forall|j: int|
                    0 <= j < o ==> (#[trigger] self.variants@[j]).spaced_pascal@ != s@),
                None => forall|j: int|
                    0 <= j < self.variants@.len() ==> (
                    #[trigger] self.variants@[j]).spaced_pascal@ != s@,
            },
    {
        let n = self.variants.len();
        let mut i: usize = 0;
        while i < n
            invariant
                i <= n,
                n == self.variants@.len(),
                forall|j: int| 0 <= j < i ==> (#[trigger] self.variants@[j]).spaced_pascal@ != s@,
            decreases n - i,
        {
            if str_eq(self.variants[i].spaced_pascal.as_str(), s) {
                return Some(i);
            }
            i = i + 1;
        }
        None
    }

    /// The ordinal of the first variant whose snake_case form equals `s`.
    pub fn from_snake_case(&self, s: &str) -> (r: Option<usize>)
        ensures
            match r {
                Some(o) => o < self.variants@.len() && self.variants@[o as int].snake_case@ == s@
                    && (forall|j: int|
                    0 <= j < o ==> (#[trigger] self.variants@[j]).snake_case@ != s@),
                None => forall|j: int|
                    0 <= j < self.variants@.len() ==> (#[trigger] self.variants@[j]).snake_case@
                        != s@,
            },
    {
        let n = self.variants.len();
        let mut i: usize = 0;
        while i < n
            invariant
                i <= n,
                n == self.variants@.len(),
                forall|j: int| 0 <= j < i ==> (#[trigger] self.variants@[j]).snake_case@ != s@,
            decreases n - i,
        {
            if str_eq(self.variants[i].snake_case.as_str(), s) {
                return Some(i);
            }
            i = i + 1;
        }
        None
    }

    /// The ordinal of the first variant whose kebab-case form equals `s`.
    pub fn from_kebab_case(&self, s: &str) -> (r: Option<usize>)
        ensures
            match r {
                Some(o) => o < self.variants@.len() && self.variants@[o as int].kebab_case@ == s@
                    && (forall|j: int|
                    0 <= j < o ==> (#[trigger] self.variants@[j]).kebab_case@ != s@),
                None => forall|j: int|
                    0 <= j < self.variants@.len() ==> (#[trigger] self.variants@[j]).kebab_case@
                        != s@,
            },
    {
        let n = self.variants.len();
        let mut i: usize = 0;
        while i < n
            invariant
                i <= n,
                n == self.variants@.len(),
                forall|j: int| 0 <= j < i ==> (#[trigger] self.variants@[j]).kebab_case@ != s@,
            decreases n - i,
        {
            if str_eq(self.variants[i].kebab_case.as_str(), s) {
                return Some(i);
            }
            i = i + 1;
        }
        None
    }

    /// The ordinal of the first variant whose discriminant evaluated to `v`.
    pub fn from_int(&self, v: IntVal) -> (r: Option<usize>)
        ensures
            match r {
                Some(o) => o < self.variants@.len() && self.variants@[o as int].discriminant_value
                    == Some(v) && (forall|j: int|
                    0 <= j < o ==> (#[trigger] self.variants@[j]).discriminant_value != Some(v)),
                None => forall|j: int|
                    0 <= j < self.variants@.len() ==> (
                    #[trigger] self.variants@[j]).discriminant_value != Some(v),
            },
    {
        let n = self.variants.len();
        let mut i: usize = 0;
        while i < n
            invariant
                i <= n,
                n == self.variants@.len(),
                forall|j: int|
                    0 <= j < i ==> (#[trigger] self.variants@[j]).discriminant_value != Some(v),
            decreases n - i,
        {
            match self.variants[i].discriminant_value {
                Some(d) => {
                    if d == v {
                        return Some(i);
                    }
                },
                None => {},
            }
            i = i + 1;
        }
        None
    }

    /// The ordinal after `ord`, wrapping around to the first variant.
    pub fn next_ordinal(&self, ord: usize) -> (r: usize)
        requires
            ord < self.variants@.len(),
        ensures
            ord + 1 < self.variants@.len() ==> r == ord + 1,
            ord + 1 == self.variants@.len() ==> r == 0,
    {
        let len = self.variants.len();
        if ord + 1 == len {
            0
        } else {
            ord + 1
        }
    }

    /// The ordinal before `ord`, wrapping around to the last variant.
    pub fn previous_ordinal(&self, ord: usize) -> (r: usize)
        requires
            ord < self.variants@.len(),
        ensures
            ord == 0 ==> r == self.variants@.len() - 1,
            ord > 0 ==> r == ord - 1,
    {
        if ord == 0 {
            self.variants.len() - 1
        } else {
            ord - 1
        }
    }

    /// The ordinal after `ord`, without wrapping.
    pub fn next_linear(&self, ord: usize) -> (r: Option<usize>)
        requires
            ord < self.variants@.len(),
        ensures
            ord + 1 < self.variants@.len() ==> r == Some((ord + 1) as usize),
            ord + 1 == self.variants@.len() ==> r is None,
    {
        let len = self.variants.len();
        if ord + 1 < len {
            Some(ord + 1)
        } else {
            None
        }
    }

    /// The ordinal before `ord`, without wrapping.
    pub fn previous_linear(&self, ord: usize) -> (r: Option<usize>)
        requires
            ord < self.variants@.len(),
        ensures
            ord == 0 ==> r is None,
            ord > 0 ==> r == Some((ord - 1) as usize),
    {
        if ord == 0 {
            None
        } else {
            Some(ord - 1)
        }
    }

    /// Whether `ord` is the first variant.
    pub fn is_first(&self, ord: usize) -> (r: bool)
        ensures
            r == (ord == 0),
    {
        ord == 0
    }

    /// Whether `ord` is the last variant.
    pub fn is_last(&self, ord: usize) -> (r: bool)
        requires
            self.variants@.len() > 0,
        ensures
            r == (ord == self.variants@.len() - 1),
    {
        ord == self.variants.len() - 1
    }

    /// Whether the variant at `a` comes before the variant at `b` in
    /// declaration order.
    pub fn comes_before(&self, a: usize, b: usize) -> (r: bool)
        ensures
            r == (a < b),
    {
        a < b
    }

    /// Whether the variant at `a` comes after the variant at `b` in
    /// declaration order.
    pub fn comes_after(&self, a: usize, b: usize) -> (r: bool)
        ensures
            r == (a > b),
    {
        a > b
    }

    /// The ordinals from `start` (inclusive) to `end` (exclusive), or nothing
    /// when the bounds are out of range or inverted.
    pub fn slice(&self, start: usize, end: usize) -> (r: Vec<usize>)
        ensures
            (start >= self.variants@.len() || end > self.variants@.len() || start >= end)
                ==> r@.len() == 0,
            !(start >= self.variants@.len() || end > self.variants@.len() || start >= end) ==> {
                &&& r@.len() == end - start
                &&& forall|k: int| 0 <= k < r@.len() ==> #[trigger] r@[k] == start + k
            },
    {
        let mut out: Vec<usize> = Vec::new();
        if start >= self.variants.len() || end > self.variants.len() || start >= end {
            return out;
        }
        let mut i: usize = start;
        while i < end
            invariant
                start <= i <= end,
                out@.len() == i - start,
                forall|k: int| 0 <= k < out@.len() ==> #[trigger] out@[k] == start + k,
            decreases end - i,
        {
            out.push(i);
            i = i + 1;
        }
        out
    }

    /// The ordinals in the given range.
    pub fn range(&self, bounds: core::ops::Range<usize>) -> (r: Vec<usize>)
        ensures
            (bounds.start >= self.variants@.len() || bounds.end > self.variants@.len()
                || bounds.start >= bounds.end) ==> r@.len() == 0,
            !(bounds.start >= self.variants@.len() || bounds.end > self.variants@.len()
                || bounds.start >= bounds.end) ==> {
                &&& r@.len() == bounds.end - bounds.start
                &&& forall|k: int| 0 <= k < r@.len() ==> #[trigger] r@[k] == bounds.start + k
            },
    {
        self.slice(bounds.start, bounds.end)
    }

    /// The first `n` ordinals (all of them when `n` exceeds the count).
    pub fn first_n(&self, n: usize) -> (r: Vec<usize>)
        requires
            self.variants@.len() > 0,
        ensures
            r@.len() == if n <= self.variants@.len() {
                n as int
            } else {
                self.variants@.len() as int
            },
            forall|k: int| 0 <= k < r@.len() ==> #[trigger] r@[k] == k,
    {
        let count = self.variants.len();
        let upto = if n < count {
            n
        } else {
            count
        };
        let r = self.slice(0, upto);
        proof {
            if upto == 0 {
                assert(r@.len() == 0);
            }
        }
        r
    }

    /// The last `n` ordinals (all of them when `n` exceeds the count).
    pub fn last_n(&self, n: usize) -> (r: Vec<usize>)
        requires
            self.variants@.len() > 0,
        ensures
            r@.len() == if n <= self.variants@.len() {
                n as int
            } else {
                self.variants@.len() as int
            },
            forall|k: int|
                0 <= k < r@.len() ==> #[trigger] r@[k] == self.variants@.len() - r@.len() + k,
    {
        let count = self.variants.len();
        let start = if n >= count {
            0
        } else {
            count - n
        };
        let r = self.slice(start, count);
        proof {
            if start == count {
                assert(r@.len() == 0);
            }
        }
        r
    }

    /// The identifier of each variant, in declaration order.
    pub fn variant_names(&self) -> (r: Vec<String>)
        ensures
            r@.len() == self.variants@.len(),
            forall|i: int|
                0 <= i < r@.len() ==> (#[trigger] r@[i])@ == self.variants@[i].identifier@,
    {
        let n = self.variants.len();
        let mut out: Vec<String> = Vec::new();
        let mut i: usize = 0;
        while i < n
            invariant
                i <= n,
                n == self.variants@.len(),
                out@.len() == i,
                forall|j: int|
                    0 <= j < i ==> (#[trigger] out@[j])@ == self.variants@[j].identifier@,
            decreases n - i,
        {
            out.push(self.variants[i].identifier.clone());
            i = i + 1;
        }
        out
    }

    /// The ordinals, in increasing order, of the variants whose spaced-Pascal
    /// name contains `pat`.
    pub fn variants_containing(&self, pat: &str) -> (r: Vec<usize>)
        ensures
            forall|k: int|
                0 <= k < r@.len() ==> (#[trigger] r@[k]) < self.variants@.len() && contains_sub(
                    self.variants@[r@[k] as int].spaced_pascal@,
                    pat@,
                ),
            forall|k1: int, k2: int| 0 <= k1 < k2 < r@.len() ==> r@[k1] < r@[k2],
            forall|o: usize|
                o < self.variants@.len() && contains_sub(
                    (#[trigger] self.variants@[o as int]).spaced_pascal@,
                    pat@,
                ) ==> r@.contains(o),
    {
        let n = self.variants.len();
        let mut out: Vec<usize> = Vec::new();
        let mut i: usize = 0;
        while i < n
            invariant
                i <= n,
                n == self.variants@.len(),
                forall|k: int|
                    0 <= k < out@.len() ==> (#[trigger] out@[k]) < i && contains_sub(
                        self.variants@[out@[k] as int].spaced_pascal@,
                        pat@,
                    ),
                forall|k1: int, k2: int| 0 <= k1 < k2 < out@.len() ==> out@[k1] < out@[k2],
                forall|o: usize|
                    o < i && contains_sub(
                        (#[trigger] self.variants@[o as int]).spaced_pascal@,
                        pat@,
                    ) ==> out@.contains(o),
            decreases n - i,
        {
            if str_contains(self.variants[i].spaced_pascal.as_str(), pat) {
                let ghost prev = out@;
                out.push(i);
                proof {
                    assert(out@[out@.len() - 1] == i);
                    assert(out@.contains(i));
                    assert forall|o: usize| prev.contains(o) implies out@.contains(o) by {
                        let k = choose|k: int| 0 <= k < prev.len() && prev[k] == o;
                        assert(out@[k] == o);
                    }
                }
            }
            i = i + 1;
        }
        out
    }

    /// The ordinals, in increasing order, of the variants whose spaced-Pascal
    /// name starts with `pat`.
    pub fn variants_starting_with(&self, pat: &str) -> (r: Vec<usize>)
        ensures
            forall|k: int|
                0 <= k < r@.len() ==> (#[trigger] r@[k]) < self.variants@.len() && has_prefix(
                    self.variants@[r@[k] as int].spaced_pascal@,
                    pat@,
                ),
            forall|k1: int, k2: int| 0 <= k1 < k2 < r@.len() ==> r@[k1] < r@[k2],
            forall|o: usize|
                o < self.variants@.len() && has_prefix(
                    (#[trigger] self.variants@[o as int]).spaced_pascal@,
                    pat@,
                ) ==> r@.contains(o),
    {
        let n = self.variants.len();
        let mut out: Vec<usize> = Vec::new();
        let mut i: usize = 0;
        while i < n
            invariant
                i <= n,
                n == self.variants@.len(),
                forall|k: int|
                    0 <= k < out@.len() ==> (#[trigger] out@[k]) < i && has_prefix(
                        self.variants@[out@[k] as int].spaced_pascal@,
                        pat@,
                    ),
                forall|k1: int, k2: int| 0 <= k1 < k2 < out@.len() ==> out@[k1] < out@[k2],
                forall|o: usize|
                    o < i && has_prefix(
                        (#[trigger] self.variants@[o as int]).spaced_pascal@,
                        pat@,
                    ) ==> out@.contains(o),
            decreases n - i,
        {
            if str_has_prefix(self.variants[i].spaced_pascal.as_str(), pat) {
                let ghost prev = out@;
                out.push(i);
                proof {
                    assert(out@[out@.len() - 1] == i);
                    assert(out@.contains(i));
                    assert forall|o: usize| prev.contains(o) implies out@.contains(o) by {
                        let k = choose|k: int| 0 <= k < prev.len() && prev[k] == o;
                        assert(out@[k] == o);
                    }
                }
            }
            i = i + 1;
        }
        out
    }

    /// The ordinals, in increasing order, of the variants whose spaced-Pascal
    /// name ends with `pat`.
    pub fn variants_ending_with(&self, pat: &str) -> (r: Vec<usize>)
        ensures
            forall|k: int|
                0 <= k < r@.len() ==> (#[trigger] r@[k]) < self.variants@.len() && has_suffix(
                    self.variants@[r@[k] as int].spaced_pascal@,
                    pat@,
                ),
            forall|k1: int, k2: int| 0 <= k1 < k2 < r@.len() ==> r@[k1] < r@[k2],
            forall|o: usize|
                o < self.variants@.len() && has_suffix(
                    (#[trigger] self.variants@[o as int]).spaced_pascal@,
                    pat@,
                ) ==> r@.contains(o),
    {
        let n = self.variants.len();
        let mut out: Vec<usize> = Vec::new();
        let mut i: usize = 0;
        while i < n
            invariant
                i <= n,
                n == self.variants@.len(),
                forall|k: int|
                    0 <= k < out@.len() ==> (#[trigger] out@[k]) < i && has_suffix(
                        self.variants@[out@[k] as int].spaced_pascal@,
                        pat@,
                    ),
                forall|k1: int, k2: int| 0 <= k1 < k2 < out@.len() ==> out@[k1] < out@[k2],
                forall|o: usize|
                    o < i && has_suffix(
                        (#[trigger] self.variants@[o as int]).spaced_pascal@,
                        pat@,
                    ) ==> out@.contains(o),
            decreases n - i,
        {
            if str_has_suffix(self.variants[i].spaced_pascal.as_str(), pat) {
                let ghost prev = out@;
                out.push(i);
                proof {
                    assert(out@[out@.len() - 1] == i);
                    assert(out@.contains(i));
                    assert forall|o: usize| prev.contains(o) implies out@.contains(o) by {
                        let k = choose|k: int| 0 <= k < prev.len() && prev[k] == o;
                        assert(out@[k] == o);
                    }
                }
            }
            i = i + 1;
        }
        out
    }
}

} // verus!
