//! A small cell-complex model: a component records how many cells a complex
//! has in each dimension, as a tail-compressed sequence whose tail is zero,
//! and the `Complex` trait derives emptiness, dimension and the Euler
//! characteristic from it.
use vstd::prelude::*;
use vstd::string::StringExecFns;
use vstd::std_specs::cmp::PartialEqSpec;
use crate::tools::{
    VecTail, at_or_tail, eff_len, lemma_eff_len_idempotent, lemma_eff_len_last,
};

verus! {

/// The digit character for `d`, which must be below ten.
pub open spec fn digit_char(d: nat) -> char {
    if d == 0 {
        '0'
    } else if d == 1 {
        '1'
    } else if d == 2 {
        '2'
    } else if d == 3 {
        '3'
    } else if d == 4 {
        '4'
    } else if d == 5 {
        '5'
    } else if d == 6 {
        '6'
    } else if d == 7 {
        '7'
    } else if d == 8 {
        '8'
    } else {
        '9'
    }
}

/// The decimal rendering of `n`, most significant digit first, with no
/// leading zero except for zero itself.
pub open spec fn decimal(n: nat) -> Seq<char>
    decreases n,
{
    if n < 10 {
        seq![digit_char(n)]
    } else {
        decimal(n / 10).push(digit_char(n % 10))
    }
}

/// Relies on the standard decimal formatting of `usize`.
#[verifier::external_body]
fn usize_to_string(n: usize) -> (r: String)
    ensures
        r@ == decimal(n as nat),
{
    format!("{}", n)
}

/// An n-simplex, up to homeomorphism.
pub struct Simplex(pub usize);

impl Simplex {
    /// Renders as the dimension followed by the word simplex.
    pub fn debug_string(&self) -> (r: String)
        ensures
            r@ == decimal(self.0 as nat) + "-simplex"@,
    {
        let mut out = usize_to_string(self.0);
        out.append("-simplex");
        out
    }
}

/// One line of a component rendering: the simplex dimension, a tab, the
/// cell count, and a line break.
pub open spec fn component_line(dim: nat, count: nat) -> Seq<char> {
    decimal(dim) + "-simplex"@ + "\t"@ + decimal(count) + "\n"@
}

/// The first `k` lines of a component rendering.
pub open spec fn component_render(s: Seq<usize>, k: int) -> Seq<char>
    decreases k,
{
    if k <= 0 {
        Seq::empty()
    } else {
        component_render(s, k - 1) + component_line((k - 1) as nat, s[k - 1] as nat)
    }
}

/// A component of a cell complex: the number of cells it has in each
/// dimension, canonically stored with no trailing zero count. Its view is
/// that canonical sequence of counts; every dimension beyond it holds no
/// cell.
#[derive(Debug)]
pub struct Component {
    inner: VecTail<usize>,
}

impl View for Component {
    type V = Seq<usize>;

    closed spec fn view(&self) -> Seq<usize> {
        self.inner@.0
    }
}

impl Component {
    #[verifier::type_invariant]
    closed spec fn wf(self) -> bool {
        self.inner@.1 == 0 && eff_len(self.inner@.0, 0usize) == self.inner@.0.len()
    }

    /// Builds a component from cell counts per dimension, dropping trailing
    /// zero counts.
    pub fn from(v: Vec<usize>) -> (r: Component)
        ensures
            r@ == v@.take(eff_len(v@, 0usize) as int),
    {
        let ghost counts = v@;
        let inner = VecTail::from(v, 0);
        proof {
            assert(<usize as vstd::std_specs::cmp::PartialEqSpec>::obeys_eq_spec());
            lemma_eff_len_idempotent(counts, 0usize);
            crate::tools::lemma_eff_len_le(counts, 0usize);
            assert(inner@.0 == counts.take(eff_len(counts, 0usize) as int));
            assert(inner@.0.len() == eff_len(counts, 0usize));
            assert(eff_len(inner@.0, 0usize) == inner@.0.len());
        }
        Component { inner }
    }

    /// How many dimensions carry at least one cell: the canonical length.
    pub fn len(&self) -> (n: usize)
        ensures
            n == self@.len(),
    {
        proof {
            use_type_invariant(self);
        }
        self.inner.len()
    }

    /// Whether no dimension carries a cell.
    pub fn is_empty(&self) -> (r: bool)
        ensures
            r == (self@.len() == 0),
    {
        self.inner.is_empty()
    }

    /// The cell count in dimension `dim`: zero beyond the canonical length.
    pub fn get(&self, dim: usize) -> (r: usize)
        ensures
            dim < self@.len() ==> r == self@[dim as int],
            dim >= self@.len() ==> r == 0,
    {
        proof {
            use_type_invariant(self);
        }
        *self.inner.get(dim)
    }

    /// The canonical counts, one per dimension that carries a cell.
    pub fn iter_finite(&self) -> (r: Vec<usize>)
        ensures
            r@ == self@,
    {
        let out = self.inner.iter_finite();
        proof {
            assert forall|i: int| 0 <= i < out@.len() implies out@[i] == self@[i] by {
                assert(vstd::pervasive::cloned::<usize>(self@[i], out@[i]));
            }
            assert(out@ =~= self@);
        }
        out
    }

    /// Renders one line per dimension that carries a cell: the simplex, a
    /// tab, and the count.
    pub fn debug_string(&self) -> (r: String)
        ensures
            r@ == component_render(self@, self@.len() as int),
    {
        let mut out = String::new();
        let n = self.len();
        let mut i: usize = 0;
        #[verifier::loop_isolation(false)]
        while i < n
            invariant
                i <= n,
                out@ == component_render(self@, i as int),
            decreases n - i,
        {
            let line = Simplex(i).debug_string();
            out.append(line.as_str());
            out.append("\t");
            let count = usize_to_string(self.get(i));
            out.append(count.as_str());
            out.append("\n");
            i += 1;
        }
        out
    }
}

/// Components are equal when they record the same cell count in every
/// dimension; the canonical storage makes that one sequence equality.
impl PartialEq for Component {
    fn eq(&self, other: &Self) -> (r: bool) {
        proof {
            use_type_invariant(self);
            use_type_invariant(other);
            if self.inner@.0 == other.inner@.0 {
                assert(crate::tools::vt_eq_spec(self.inner@, other.inner@));
            } else {
                lemma_component_eq(self.inner@.0, other.inner@.0);
            }
        }
        self.inner == other.inner
    }
}

impl vstd::std_specs::cmp::PartialEqSpecImpl for Component {
    open spec fn obeys_eq_spec() -> bool {
        true
    }

    open spec fn eq_spec(&self, other: &Self) -> bool {
        self@ == other@
    }
}

/// Two canonical count sequences that differ somewhere also differ, with
/// the zero tail filled in, at some position below the longer length.
proof fn lemma_component_eq(a: Seq<usize>, b: Seq<usize>)
    requires
        eff_len(a, 0usize) == a.len(),
        eff_len(b, 0usize) == b.len(),
        a != b,
    ensures
        !crate::tools::vt_eq_spec((a, 0usize), (b, 0usize)),
{
    let i: int = if a.len() == b.len() {
        assert(!(a =~= b));
        choose|i: int| 0 <= i < a.len() && a[i] != b[i]
    } else if a.len() < b.len() {
        lemma_eff_len_last(b, 0usize);
        b.len() - 1
    } else {
        lemma_eff_len_last(a, 0usize);
        a.len() - 1
    };
    assert(0 <= i < crate::tools::max_len(a, b));
    assert(!(at_or_tail(a, 0usize, i)).eq_spec(&at_or_tail(b, 0usize, i)));
    if crate::tools::vt_eq_spec((a, 0usize), (b, 0usize)) {
        assert((at_or_tail((a, 0usize).0, (a, 0usize).1, i)).eq_spec(
            &at_or_tail((b, 0usize).0, (b, 0usize).1, i),
        ));
        assert(false);
    }
}

/// The alternating sum of the first `k` cell counts: even dimensions are
/// added and odd dimensions subtracted.
pub open spec fn euler_partial(s: Seq<usize>, k: int) -> int
    decreases k,
{
    if k <= 0 {
        0
    } else {
        euler_partial(s, k - 1) + if (k - 1) % 2 == 0 {
            s[k - 1] as int
        } else {
            -(s[k - 1] as int)
        }
    }
}

/// A cell complex, described by its component: the count of cells in each
/// dimension. Emptiness, dimension and the Euler characteristic are derived
/// from the component alone.
pub trait Complex {
    /// The canonical cell counts, one per dimension, with no trailing zero.
    spec fn counts(&self) -> Seq<usize>;

    fn component(&self) -> (c: Component)
        ensures
            c@ == self.counts(),
    ;

    fn is_empty(&self) -> (r: bool)
        ensures
            r == (self.counts().len() == 0),
    {
        self.component().is_empty()
    }

    /// One less than the number of dimensions that carry cells; the empty
    /// complex has no dimension.
    fn dim(&self) -> (r: Result<usize, &'static str>)
        ensures
            self.counts().len() == 0 ==> (r matches Err(m) && m@ == "the complex is empty"@),
            self.counts().len() > 0 ==> r == Ok::<usize, &'static str>(
                (self.counts().len() - 1) as usize,
            ),
    {
        let c = self.component();
        if c.is_empty() {
            Err("the complex is empty")
        } else {
            Ok(c.len() - 1)
        }
    }

    /// The Euler characteristic: the alternating sum of the cell counts,
    /// even dimensions added and odd dimensions subtracted.
    fn euler(&self) -> (r: isize)
        requires
            forall|k: int|
                0 <= k <= self.counts().len() ==> isize::MIN <= #[trigger] euler_partial(
                    self.counts(),
                    k,
                ) <= isize::MAX,
            forall|i: int|
                0 <= i < self.counts().len() ==> #[trigger] self.counts()[i] <= (isize::MAX
                    as usize),
        ensures
            r == euler_partial(self.counts(), self.counts().len() as int),
    {
        let c = self.component();
        let n = c.len();
        let mut sum: isize = 0;
        let mut i: usize = 0;
        #[verifier::loop_isolation(false)]
        while i < n
            invariant
                i <= n,
                sum == euler_partial(self.counts(), i as int),
            decreases n - i,
        {
            let v = c.get(i);
            proof {
                assert(euler_partial(self.counts(), i + 1) == euler_partial(
                    self.counts(),
                    i as int,
                ) + if (i as int) % 2 == 0 {
                    self.counts()[i as int] as int
                } else {
                    -(self.counts()[i as int] as int)
                });
            }
            if i % 2 == 0 {
                sum = sum + (v as isize);
            } else {
                sum = sum - (v as isize);
            }
            i += 1;
        }
        sum
    }
}

/// The zero-dimensional complex: a single point.
#[derive(Debug)]
pub struct Point;

impl Complex for Point {
    open spec fn counts(&self) -> Seq<usize> {
        seq![1usize]
    }

    fn component(&self) -> (c: Component) {
        let mut v: Vec<usize> = Vec::new();
        v.push(1);
        let c = Component::from(v);
        proof {
            assert(v@ =~= seq![1usize]);
            assert(v@.last() == 1usize);
            assert(!(1usize).eq_spec(&0usize));
            assert(eff_len(v@, 0usize) == 1);
            assert(c@ =~= seq![1usize]);
        }
        c
    }
}

/// The one-dimensional segment: two points joined by one edge.
#[derive(Debug)]
pub struct Segment;

impl Complex for Segment {
    open spec fn counts(&self) -> Seq<usize> {
        seq![2usize, 1usize]
    }

    fn component(&self) -> (c: Component) {
        let mut v: Vec<usize> = Vec::new();
        v.push(2);
        v.push(1);
        let c = Component::from(v);
        proof {
            assert(v@ =~= seq![2usize, 1usize]);
            assert(eff_len(v@, 0usize) == 2);
            assert(c@ =~= seq![2usize, 1usize]);
        }
        c
    }
}

/// A wedge of circles: one point with that many one-cells attached.
#[derive(Debug)]
pub struct WedgeLoop(pub usize);

impl WedgeLoop {
    /// A wedge of `n` circles; zero is rejected, as the genus must be
    /// positive for these surfaces.
    pub fn new(n: usize) -> (r: Result<WedgeLoop, &'static str>)
        ensures
            n == 0 ==> (r matches Err(m) && m@
                == "genus should be positive for torus-like surface"@),
            n > 0 ==> r == Ok::<WedgeLoop, &'static str>(WedgeLoop(n)),
    {
        if n == 0 {
            Err("genus should be positive for torus-like surface")
        } else {
            Ok(WedgeLoop(n))
        }
    }
}

impl Complex for WedgeLoop {
    open spec fn counts(&self) -> Seq<usize> {
        if self.0 == 0 {
            seq![1usize]
        } else {
            seq![1usize, self.0]
        }
    }

    fn component(&self) -> (c: Component) {
        let mut v: Vec<usize> = Vec::new();
        v.push(1);
        v.push(self.0);
        let c = Component::from(v);
        proof {
            assert(v@ =~= seq![1usize, self.0]);
            if self.0 == 0 {
                assert(v@.last() == 0usize);
                assert(v@.drop_last() =~= seq![1usize]);
                assert(eff_len(seq![1usize], 0usize) == 1);
                assert(eff_len(v@, 0usize) == 1);
                assert(c@ =~= seq![1usize]);
            } else {
                assert(eff_len(v@, 0usize) == 2);
                assert(c@ =~= seq![1usize, self.0]);
            }
        }
        c
    }
}

} // verus!
