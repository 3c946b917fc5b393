//! A tail-compressed representation of conceptually infinite sequences that
//! are eventually constant: a finite head is stored explicitly and one tail
//! value stands for every later position.
use vstd::prelude::*;
use vstd::std_specs::cmp::{OrdSpec, PartialEqSpec, PartialEqSpecImpl, PartialOrdSpecImpl};
use vstd::string::StringExecFns;
use core::cmp::Ordering;

verus! {

/// Effective length of a head sequence with respect to a tail value: the
/// largest `n` such that `s[n - 1]` is not equal, under the element type's
/// own equality, to `t`. Trailing entries equal to the tail are logically
/// absent.
pub open spec fn eff_len<T: PartialEq>(s: Seq<T>, t: T) -> nat
    decreases s.len(),
{
    if s.len() == 0 {
        0
    } else if s.last().eq_spec(&t) {
        eff_len(s.drop_last(), t)
    } else {
        s.len()
    }
}

/// The value of the conceptually infinite sequence `(heads, tail)` at
/// position `i`: the stored head below the head's length, the tail beyond.
pub open spec fn at_or_tail<T>(heads: Seq<T>, tail: T, i: int) -> T {
    if 0 <= i < heads.len() {
        heads[i]
    } else {
        tail
    }
}

/// The longer of the two head lengths.
pub open spec fn max_len<T>(a: Seq<T>, b: Seq<T>) -> int {
    if a.len() >= b.len() {
        a.len() as int
    } else {
        b.len() as int
    }
}

/// Equality of two tail-compressed sequences: every position out to the
/// longer effective length compares equal under the element type's equality,
/// and so do the two tails. This holds exactly when the two infinite
/// sequences agree position by position.
pub open spec fn vt_eq_spec<T: PartialEq>(a: (Seq<T>, T), b: (Seq<T>, T)) -> bool {
    &&& forall|i: int|
        0 <= i < max_len(a.0, b.0) ==> (#[trigger] at_or_tail(a.0, a.1, i)).eq_spec(
            &at_or_tail(b.0, b.1, i),
        )
    &&& a.1.eq_spec(&b.1)
}

/// No position of `a` compares greater than the matching position of `b`,
/// the tails included.
pub open spec fn vt_le_spec<T: Ord>(a: (Seq<T>, T), b: (Seq<T>, T)) -> bool {
    &&& forall|i: int|
        0 <= i < max_len(a.0, b.0) ==> (#[trigger] at_or_tail(a.0, a.1, i)).cmp_spec(
            &at_or_tail(b.0, b.1, i),
        ) != Ordering::Greater
    &&& a.1.cmp_spec(&b.1) != Ordering::Greater
}

/// No position of `a` compares less than the matching position of `b`,
/// the tails included.
pub open spec fn vt_ge_spec<T: Ord>(a: (Seq<T>, T), b: (Seq<T>, T)) -> bool {
    &&& forall|i: int|
        0 <= i < max_len(a.0, b.0) ==> (#[trigger] at_or_tail(a.0, a.1, i)).cmp_spec(
            &at_or_tail(b.0, b.1, i),
        ) != Ordering::Less
    &&& a.1.cmp_spec(&b.1) != Ordering::Less
}

/// The partial order on tail-compressed sequences: equal when every position
/// compares equal, less when no position compares greater and at least one
/// compares less, greater symmetrically, and incomparable otherwise.
pub open spec fn vt_cmp_spec<T: Ord>(a: (Seq<T>, T), b: (Seq<T>, T)) -> Option<Ordering> {
    if vt_le_spec(a, b) && vt_ge_spec(a, b) {
        Some(Ordering::Equal)
    } else if vt_le_spec(a, b) {
        Some(Ordering::Less)
    } else if vt_ge_spec(a, b) {
        Some(Ordering::Greater)
    } else {
        None
    }
}

pub proof fn lemma_eff_len_le<T: PartialEq>(s: Seq<T>, t: T)
    ensures
        eff_len(s, t) <= s.len(),
    decreases s.len(),
{
    if s.len() > 0 && s.last().eq_spec(&t) {
        lemma_eff_len_le(s.drop_last(), t);
    }
}

/// The entry just below the effective length is never equal to the tail.
pub proof fn lemma_eff_len_last<T: PartialEq>(s: Seq<T>, t: T)
    requires
        eff_len(s, t) > 0,
    ensures
        !s[eff_len(s, t) - 1].eq_spec(&t),
    decreases s.len(),
{
    if s.last().eq_spec(&t) {
        lemma_eff_len_last(s.drop_last(), t);
        lemma_eff_len_le(s.drop_last(), t);
        assert(s.drop_last()[eff_len(s, t) - 1] == s[eff_len(s, t) - 1]);
    }
}

/// Trimming a head to its effective length is idempotent: the trimmed head
/// has the same effective length.
pub proof fn lemma_eff_len_idempotent<T: PartialEq>(s: Seq<T>, t: T)
    ensures
        eff_len(s.take(eff_len(s, t) as int), t) == eff_len(s, t),
{
    lemma_eff_len_le(s, t);
    let k = eff_len(s, t);
    let pre = s.take(k as int);
    if k == 0 {
        assert(pre.len() == 0);
    } else {
        lemma_eff_len_last(s, t);
        assert(pre.last() == s[k - 1]);
        assert(eff_len(pre, t) == k);
    }
}

/// A head whose entries are all equal to the tail has effective length zero.
pub proof fn lemma_eff_len_zero<T: PartialEq>(s: Seq<T>, t: T)
    requires
        forall|i: int| 0 <= i < s.len() ==> (#[trigger] s[i]).eq_spec(&t),
    ensures
        eff_len(s, t) == 0,
    decreases s.len(),
{
    if s.len() > 0 {
        assert(s.last().eq_spec(&t));
        assert(forall|i: int|
            0 <= i < s.drop_last().len() ==> (#[trigger] s.drop_last()[i]).eq_spec(&t)) by {
            assert(forall|i: int| 0 <= i < s.drop_last().len() ==> s.drop_last()[i] == s[i]);
        }
        lemma_eff_len_zero(s.drop_last(), t);
    }
}

/// A tail-compressed infinite sequence: a finite head followed by an
/// endlessly repeated tail value. The constructors drop trailing head
/// entries equal to the tail, so the stored head is the effective prefix.
#[derive(Debug)]
pub struct VecTail<T: PartialEq> {
    heads: Vec<T>,
    tail: T,
}

impl<T: PartialEq> View for VecTail<T> {
    type V = (Seq<T>, T);

    closed spec fn view(&self) -> (Seq<T>, T) {
        (self.heads@, self.tail)
    }
}

impl<T: PartialEq + Default> VecTail<T> {
    /// The sequence with an empty head over the element type's default value:
    /// every position holds that default.
    pub fn new() -> (r: VecTail<T>)
        ensures
            r@.0 == Seq::<T>::empty(),
            call_ensures(T::default, (), r@.1),
    {
        VecTail { heads: Vec::new(), tail: T::default() }
    }
}

impl<T: PartialEq> VecTail<T> {
    /// Scans `v` from its end and returns the index of the first position,
    /// counted from the back, whose entry is not equal to `tail`: the
    /// effective length of `v` with respect to `tail`.
    fn scan_len(v: &Vec<T>, tail: &T) -> (n: usize)
        ensures
            n <= v@.len(),
            T::obeys_eq_spec() ==> n as nat == eff_len(v@, *tail),
    {
        let mut n: usize = v.len();
        proof {
            assert(v@.take(v@.len() as int) =~= v@);
        }
        while n > 0
            invariant_except_break
                n <= v@.len(),
                T::obeys_eq_spec() ==> eff_len(v@, *tail) == eff_len(
                    v@.take(n as int),
                    *tail,
                ),
            ensures
                n <= v@.len(),
                T::obeys_eq_spec() ==> n as nat == eff_len(v@, *tail),
            decreases n,
        {
            if v[n - 1] == *tail {
                proof {
                    if T::obeys_eq_spec() {
                        let pre = v@.take(n as int);
                        assert(pre.last() == v@[n - 1]);
                        assert(pre.drop_last() =~= v@.take(n - 1));
                    }
                }
                n -= 1;
            } else {
                proof {
                    if T::obeys_eq_spec() {
                        let pre = v@.take(n as int);
                        assert(pre.last() == v@[n - 1]);
                        assert(eff_len(pre, *tail) == n);
                    }
                }
                break ;
            }
        }
        proof {
            if T::obeys_eq_spec() && n == 0 {
                assert(v@.take(0).len() == 0);
            }
        }
        n
    }

    /// Builds the sequence from a finite head and a tail value, dropping the
    /// trailing head entries equal to the tail. Any input is valid.
    pub fn from(v: Vec<T>, tail: T) -> (r: VecTail<T>)
        ensures
            r@.1 == tail,
            r@.0.len() <= v@.len(),
            r@.0 == v@.take(r@.0.len() as int),
            T::obeys_eq_spec() ==> r@.0 == v@.take(eff_len(v@, tail) as int),
    {
        let mut v = v;
        let n = Self::scan_len(&v, &tail);
        v.truncate(n);
        VecTail { heads: v, tail }
    }

    /// Recomputes the effective length by the same trailing scan the
    /// constructor uses; the stored head is already trimmed, so under a
    /// lawful element equality this is the head's length.
    pub fn len(&self) -> (n: usize)
        ensures
            n <= self@.0.len(),
            T::obeys_eq_spec() ==> n as nat == eff_len(self@.0, self@.1),
    {
        Self::scan_len(&self.heads, &self.tail)
    }

    /// Whether the stored head is empty, in which case every position holds
    /// the tail.
    pub fn is_empty(&self) -> (r: bool)
        ensures
            r == (self@.0.len() == 0),
    {
        self.heads.len() == 0
    }

    /// Total indexing: the stored head below its length, the tail beyond.
    /// Defined for every index; it never fails.
    pub fn get(&self, index: usize) -> (r: &T)
        ensures
            *r == at_or_tail(self@.0, self@.1, index as int),
    {
        if index < self.heads.len() {
            &self.heads[index]
        } else {
            &self.tail
        }
    }

    /// Consumes the sequence and returns the effective prefix itself.
    pub fn into_iter_finite(self) -> (r: Vec<T>)
        ensures
            r@ == self@.0,
    {
        self.heads
    }
}

impl<T: PartialEq + Clone> VecTail<T> {
    /// The effective prefix, as a vector of clones of its entries, in order.
    pub fn iter_finite(&self) -> (r: Vec<T>)
        ensures
            r@.len() == self@.0.len(),
            forall|i: int|
                0 <= i < r@.len() ==> vstd::pervasive::cloned::<T>(self@.0[i], #[trigger] r@[i]),
    {
        self.heads.clone()
    }
}

impl<T: PartialEq + Copy> VecTail<T> {
    /// The first `count` positions of the infinite sequence: the effective
    /// prefix continued with the tail value. The caller bounds its own
    /// consumption of the conceptually unbounded remainder.
    pub fn iter(&self, count: usize) -> (r: Vec<T>)
        ensures
            r@.len() == count,
            forall|i: int| 0 <= i < count ==> #[trigger] r@[i] == at_or_tail(self@.0, self@.1, i),
    {
        let mut out: Vec<T> = Vec::new();
        let mut i: usize = 0;
        while i < count
            invariant
                i <= count,
                out@.len() == i,
                forall|j: int| 0 <= j < i ==> #[trigger] out@[j] == at_or_tail(self@.0, self@.1, j),
            decreases count - i,
        {
            out.push(*self.get(i));
            i += 1;
        }
        out
    }
}

impl<T: PartialEq> PartialEq for VecTail<T> {
    /// Compares position by position out to the longer effective length and
    /// then the tails, so that two sequences with the same logical content
    /// but different raw storage compare equal.
    fn eq(&self, other: &Self) -> (r: bool) {
        let m = if self.heads.len() >= other.heads.len() {
            self.heads.len()
        } else {
            other.heads.len()
        };
        let mut i: usize = 0;
        while i < m
            invariant
                i <= m,
                m == max_len(self@.0, other@.0),
                T::obeys_eq_spec() ==> forall|j: int|
                    0 <= j < i ==> (#[trigger] at_or_tail(self@.0, self@.1, j)).eq_spec(
                        &at_or_tail(other@.0, other@.1, j),
                    ),
            decreases m - i,
        {
            if !(*self.get(i) == *other.get(i)) {
                return false;
            }
            i += 1;
        }
        self.tail == other.tail
    }
}

impl<T: PartialEq> PartialEqSpecImpl for VecTail<T> {
    open spec fn obeys_eq_spec() -> bool {
        T::obeys_eq_spec()
    }

    open spec fn eq_spec(&self, other: &Self) -> bool {
        vt_eq_spec(self@, other@)
    }
}

impl<T: Ord> PartialOrd for VecTail<T> {
    /// Element-wise comparison out to the longer effective length, the tails
    /// included: equal only if every position compares equal, less or
    /// greater only if every position agrees with the strict outcome, and
    /// incomparable otherwise.
    fn partial_cmp(&self, other: &Self) -> (r: Option<Ordering>) {
        let m = if self.heads.len() >= other.heads.len() {
            self.heads.len()
        } else {
            other.heads.len()
        };
        let mut le = true;
        let mut ge = true;
        let mut i: usize = 0;
        while i < m
            invariant
                i <= m,
                m == max_len(self@.0, other@.0),
                T::obeys_cmp_spec() ==> le == forall|j: int|
                    0 <= j < i ==> (#[trigger] at_or_tail(self@.0, self@.1, j)).cmp_spec(
                        &at_or_tail(other@.0, other@.1, j),
                    ) != Ordering::Greater,
                T::obeys_cmp_spec() ==> ge == forall|j: int|
                    0 <= j < i ==> (#[trigger] at_or_tail(self@.0, self@.1, j)).cmp_spec(
                        &at_or_tail(other@.0, other@.1, j),
                    ) != Ordering::Less,
            decreases m - i,
        {
            match (*self.get(i)).cmp(other.get(i)) {
                Ordering::Less => {
                    ge = false;
                },
                Ordering::Greater => {
                    le = false;
                },
                Ordering::Equal => {},
            }
            i += 1;
        }
        match (self.tail).cmp(&other.tail) {
            Ordering::Less => {
                ge = false;
            },
            Ordering::Greater => {
                le = false;
            },
            Ordering::Equal => {},
        }
        if le && ge {
            Some(Ordering::Equal)
        } else if le {
            Some(Ordering::Less)
        } else if ge {
            Some(Ordering::Greater)
        } else {
            None
        }
    }
}

impl<T: Ord> PartialOrdSpecImpl for VecTail<T> {
    open spec fn obeys_partial_cmp_spec() -> bool {
        T::obeys_cmp_spec()
    }

    open spec fn partial_cmp_spec(&self, other: &Self) -> Option<Ordering> {
        vt_cmp_spec(self@, other@)
    }
}

/// Relies on the standard Debug formatting of the element type.
#[verifier::external_body]
fn fmt_item<T: core::fmt::Debug>(t: &T) -> String {
    format!("{:?}", t)
}

impl<T: PartialEq + core::fmt::Debug> VecTail<T> {
    /// Renders the head entries comma-separated, followed by the tail value
    /// marked as the indefinitely repeating remainder.
    pub fn debug_string(&self) -> String {
        let mut out = String::new();
        out.append("(");
        let mut i: usize = 0;
        while i < self.heads.len()
            invariant
                i <= self.heads@.len(),
            decreases self.heads@.len() - i,
        {
            let piece = fmt_item(&self.heads[i]);
            out.append(piece.as_str());
            out.append(", ");
            i += 1;
        }
        let tail_piece = fmt_item(&self.tail);
        out.append(tail_piece.as_str());
        out.append("...)");
        out
    }
}

/// Law: indexing a freshly built tail sequence yields the given head entry
/// below the effective length and the tail value at or above it, at every
/// non-negative index.
pub proof fn lemma_tail_sequence_get<T: PartialEq>(heads: Seq<T>, tail: T, i: int)
    requires
        0 <= i,
    ensures
        i < eff_len(heads, tail) ==> at_or_tail(
            heads.take(eff_len(heads, tail) as int),
            tail,
            i,
        ) == heads[i],
        i >= eff_len(heads, tail) ==> at_or_tail(
            heads.take(eff_len(heads, tail) as int),
            tail,
            i,
        ) == tail,
{
    lemma_eff_len_le(heads, tail);
}

/// Law: appending any number of trailing elements equal to the tail leaves
/// the constructed sequence with the same effective prefix, hence equal
/// under sequence equality whenever the element equality is reflexive.
pub proof fn lemma_append_tail_equal<T: PartialEq>(h1: Seq<T>, extra: Seq<T>, t: T)
    requires
        T::obeys_eq_spec(),
        forall|i: int| 0 <= i < extra.len() ==> (#[trigger] extra[i]).eq_spec(&t),
    ensures
        eff_len(h1 + extra, t) == eff_len(h1, t),
        (h1 + extra).take(eff_len(h1 + extra, t) as int) == h1.take(eff_len(h1, t) as int),
        (forall|x: T| #[trigger] x.eq_spec(&x)) ==> vt_eq_spec(
            ((h1 + extra).take(eff_len(h1 + extra, t) as int), t),
            (h1.take(eff_len(h1, t) as int), t),
        ),
    decreases extra.len(),
{
    if extra.len() == 0 {
        assert(h1 + extra =~= h1);
    } else {
        let joined = h1 + extra;
        assert(joined.last() == extra.last());
        assert(joined.last().eq_spec(&t));
        assert(joined.drop_last() =~= h1 + extra.drop_last());
        assert(forall|i: int|
            0 <= i < extra.drop_last().len() ==> (#[trigger] extra.drop_last()[i]).eq_spec(&t))
            by {
            assert(forall|i: int|
                0 <= i < extra.drop_last().len() ==> extra.drop_last()[i] == extra[i]);
        }
        lemma_append_tail_equal(h1, extra.drop_last(), t);
        assert(eff_len(joined, t) == eff_len(joined.drop_last(), t));
        lemma_eff_len_le(h1, t);
        assert(joined.take(eff_len(h1, t) as int) =~= h1.take(eff_len(h1, t) as int));
    }
    if forall|x: T| #[trigger] x.eq_spec(&x) {
        let s = h1.take(eff_len(h1, t) as int);
        assert(forall|i: int|
            0 <= i < max_len(s, s) ==> (#[trigger] at_or_tail(s, t, i)).eq_spec(
                &at_or_tail(s, t, i),
            ));
        assert(t.eq_spec(&t));
    }
}

} // verus!
