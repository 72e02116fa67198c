use core::marker::PhantomData;
use vstd::prelude::*;
use vstd::std_specs::iter::IteratorSpec;
use vstd::string::StringExecFns;

use crate::error::StatsError;
use crate::marker::{Marker, Population, Sample};
use crate::numeric::Numeric;

verus! {

/// ## DataSet
///
/// A statistically-typed, generic dataset.
///
/// `DataSet` marks its data as either [`Sample`] or [`Population`] at compile
/// time, so that variance-like computations use the right degrees of freedom:
/// the denominator is `n − M::DOF_OFFSET` (see [`DataSet::dof_denominator`]).
///
/// - `T`: any [`Numeric`] type (`i32`, `f64`, `u16`, ...)
/// - `M`: [`Sample`] or [`Population`], defaults to [`Population`]
pub struct DataSet<T: Numeric, M: Marker = Population> {
    pub(crate) data: Vec<T>,
    _marker: PhantomData<M>,
}

/// type alias for `DataSet` with the `Sample` marker.
pub type SampleData<T> = DataSet<T, Sample>;

/// type alias for `DataSet` with the `Population` marker.
pub type PopulationData<T> = DataSet<T, Population>;

impl<T: Numeric, M: Marker> View for DataSet<T, M> {
    type V = Seq<T>;

    /// The data points, in insertion order.
    closed spec fn view(&self) -> Seq<T> {
        self.data@
    }
}

/// Formats one data point with its `Debug` implementation.
#[verifier::external_body]
fn debug_format_item<T: core::fmt::Debug>(x: &T) -> String {
    format!("{:?}", x)
}

/// `text` is what formatting `x` with its `Debug` implementation gives
/// (through the formatting of a data point below).
pub closed spec fn is_debug_text<T: core::fmt::Debug>(x: T, text: Seq<char>) -> bool {
    exists|s: String| #[trigger] call_ensures(debug_format_item::<T>, (&x,), s) && s@ == text
}

/// Piece `i` of `pieces` is the `Debug` text of `items[i]`, for every `i`.
pub open spec fn shows_items<T: core::fmt::Debug>(items: Seq<T>, pieces: Seq<Seq<char>>) -> bool {
    &&& pieces.len() == items.len()
    &&& forall|i: int| 0 <= i < items.len() ==> #[trigger] is_debug_text(items[i], pieces[i])
}

/// The pieces separated by `", "`.
pub open spec fn join_pieces(pieces: Seq<Seq<char>>) -> Seq<char>
    decreases pieces.len(),
{
    if pieces.len() == 0 {
        Seq::empty()
    } else if pieces.len() == 1 {
        pieces[0]
    } else {
        join_pieces(pieces.drop_last()) + ", "@ + pieces.last()
    }
}

/// A list as `Debug` writes it: `[a, b, c]`, from the texts of its items.
pub open spec fn list_text(pieces: Seq<Seq<char>>) -> Seq<char> {
    "["@ + join_pieces(pieces) + "]"@
}

/// `text` displays `items` as a list: `[t0, t1, ...]`, where each `ti` is
/// the `Debug` text of `items[i]`, in order.
pub open spec fn is_display_of<T: core::fmt::Debug>(items: Seq<T>, text: Seq<char>) -> bool {
    exists|pieces: Seq<Seq<char>>| #[trigger] shows_items(items, pieces) && text == list_text(pieces)
}

/// Joining two non-empty runs of pieces puts `", "` between them.
proof fn lemma_join_concat(pa: Seq<Seq<char>>, pb: Seq<Seq<char>>)
    requires
        pa.len() > 0,
        pb.len() > 0,
    ensures
        join_pieces(pa + pb) == join_pieces(pa) + ", "@ + join_pieces(pb),
    decreases pb.len(),
{
    if pb.len() == 1 {
        assert((pa + pb).drop_last() == pa);
    } else {
        lemma_join_concat(pa, pb.drop_last());
        assert((pa + pb).drop_last() == pa + pb.drop_last());
        assert((pa + pb).last() == pb.last());
    }
}

/// Law: a one-point series is displayed as `[t]`, with `t` the `Debug` text
/// of its point.
pub proof fn lemma_display_single<T: core::fmt::Debug>(x: T, text: Seq<char>)
    requires
        is_display_of(seq![x], text),
    ensures
        exists|t: Seq<char>| #[trigger] is_debug_text(x, t) && text == "["@ + t + "]"@,
{
    let pieces = choose|pieces: Seq<Seq<char>>| #[trigger] shows_items(seq![x], pieces) && text == list_text(pieces);
    assert(is_debug_text(seq![x][0], pieces[0]));
    assert(join_pieces(pieces) == pieces[0]);
}

/// Law: the display of `a + b` is the display of `a` and the display of `b`
/// run together, with `", "` in place of the bracket pair between them. With
/// [`lemma_display_single`], every point's text stands at its own position.
pub proof fn lemma_display_concat<T: core::fmt::Debug>(
    a: Seq<T>,
    b: Seq<T>,
    text_a: Seq<char>,
    text_b: Seq<char>,
)
    requires
        a.len() > 0,
        b.len() > 0,
        is_display_of(a, text_a),
        is_display_of(b, text_b),
    ensures
        is_display_of(a + b, text_a.drop_last() + ", "@ + text_b.drop_first()),
{
    let pa = choose|pieces: Seq<Seq<char>>| #[trigger] shows_items(a, pieces) && text_a == list_text(pieces);
    let pb = choose|pieces: Seq<Seq<char>>| #[trigger] shows_items(b, pieces) && text_b == list_text(pieces);
    lemma_join_concat(pa, pb);
    let p = pa + pb;
    assert forall|i: int| 0 <= i < (a + b).len() implies #[trigger] is_debug_text((a + b)[i], p[i]) by {
        if i < a.len() {
            assert(is_debug_text(a[i], pa[i]));
        } else {
            assert(is_debug_text(b[i - a.len()], pb[i - a.len()]));
        }
    }
    assert(shows_items(a + b, p));
    reveal_strlit("[");
    reveal_strlit("]");
    assert(text_a.drop_last() =~= "["@ + join_pieces(pa));
    assert(text_b.drop_first() =~= join_pieces(pb) + "]"@);
    assert(text_a.drop_last() + ", "@ + text_b.drop_first() =~= list_text(p));
}

// -- Accessors
impl<T: Numeric, M: Marker> DataSet<T, M> {
    /// Add a data point in place.
    pub fn push(&mut self, value: T)
        ensures
            final(self)@ == old(self)@.push(value),
    {
        self.data.push(value)
    }

    /// Number of data points.
    pub fn len(&self) -> (r: usize)
        ensures
            r == self@.len(),
    {
        self.data.len()
    }

    /// Whether the dataset holds no data point.
    pub fn is_empty(&self) -> (r: bool)
        ensures
            r == (self@.len() == 0),
    {
        self.data.len() == 0
    }

    /// Borrow the underlying slice.
    pub fn as_slice(&self) -> (r: &[T])
        ensures
            r@ == self@,
    {
        self.data.as_slice()
    }

    /// Construct a `DataSet` holding a copy of the given slice.
    pub fn from_slice(data: &[T]) -> (r: Self)
        ensures
            r@ == data@,
    {
        let mut v: Vec<T> = Vec::new();
        let n = data.len();
        for i in 0..n
            invariant
                n == data@.len(),
                v@ == data@.subrange(0, i as int),
        {
            v.push(data[i]);
        }
        assert(v@ == data@);
        DataSet { data: v, _marker: PhantomData }
    }

    /// Consume and return the underlying `Vec`.
    pub fn into_vec(self) -> (r: Vec<T>)
        ensures
            r@ == self@,
    {
        self.data
    }

    /// Append values in place, in order.
    pub fn extend(&mut self, values: &[T])
        ensures
            final(self)@ == old(self)@ + values@,
    {
        let n = values.len();
        for i in 0..n
            invariant
                n == values@.len(),
                self@ == old(self)@ + values@.subrange(0, i as int),
        {
            self.data.push(values[i]);
            assert(values@.subrange(0, i + 1) == values@.subrange(0, i as int).push(values@[i as int]));
        }
        assert(values@.subrange(0, n as int) == values@);
    }
}

impl<T: Numeric, M: Marker> DataSet<T, M> {
    /// Creates a new `DataSet` holding `items`, in order.
    ///
    /// # Errors
    ///
    /// Returns [`StatsError::EmptyIterator`] if `items` is empty.
    pub fn new(items: &[T]) -> (r: Result<Self, StatsError>)
        ensures
            items@.len() == 0 ==> r == Err::<Self, StatsError>(StatsError::EmptyIterator),
            items@.len() > 0 ==> (r matches Ok(d) && d@ == items@),
    {
        if items.len() == 0 {
            return Err(StatsError::EmptyIterator);
        }
        Ok(Self::from_slice(items))
    }

    /// Creates an empty `DataSet`.
    pub fn empty() -> (r: Self)
        ensures
            r@ == Seq::<T>::empty(),
    {
        DataSet { data: Vec::new(), _marker: PhantomData }
    }

    /// Name of the marker type: `"Sample"` or `"Population"`.
    pub fn marker_name(&self) -> (r: &'static str)
        ensures
            r == M::NAME,
    {
        M::NAME
    }

    /// Returns the dof denominator of this [`DataSet<T, M>`]: the effective
    /// denominator for variance/covariance, `n − DOF_OFFSET`.
    ///
    /// # Errors
    ///
    /// [`StatsError::InsufficientData`] when `n ≤ DOF_OFFSET` (most commonly:
    /// sample variance with a single data point).
    pub fn dof_denominator(&self) -> (r: Result<usize, StatsError>)
        ensures
            r == dof_denominator_spec(self@.len(), M::DOF_OFFSET as nat),
    {
        let n = self.data.len();
        let offset = M::DOF_OFFSET;
        proof {
            M::lemma_dof_offset_bound();
        }
        if n <= offset {
            return Err(StatsError::InsufficientData { needed: offset + 1, got: n });
        }
        Ok(n - offset)
    }
}

/// The denominator `n − offset` of a dataset of `n` points, or the refusal
/// when `n ≤ offset`.
pub open spec fn dof_denominator_spec(n: nat, offset: nat) -> Result<usize, StatsError> {
    if n <= offset {
        Err(StatsError::InsufficientData { needed: (offset + 1) as usize, got: n as usize })
    } else {
        Ok((n - offset) as usize)
    }
}

/// Bessel's correction: a sample of `n ≥ 2` points divides by `n − 1`, the
/// same points as a population by `n`; a single point is too little for a
/// sample but is a population of one.
pub proof fn lemma_bessel_correction(n: nat)
    requires
        1 <= n < usize::MAX,
    ensures
        n >= 2 ==> dof_denominator_spec(n, Sample::DOF_OFFSET as nat) == Ok::<usize, StatsError>((n - 1) as usize),
        n == 1 ==> dof_denominator_spec(n, Sample::DOF_OFFSET as nat) == Err::<usize, StatsError>(
            StatsError::InsufficientData { needed: 2, got: 1 },
        ),
        dof_denominator_spec(n, Population::DOF_OFFSET as nat) == Ok::<usize, StatsError>(n as usize),
{
    Sample::lemma_constants();
    Population::lemma_constants();
}

impl<T: Numeric, M: Marker> DataSet<T, M> {
    /// Re-interpret this dataset as a **sample** dataset (zero allocation).
    pub fn into_sample(self) -> (r: SampleData<T>)
        ensures
            r@ == self@,
    {
        DataSet { data: self.data, _marker: PhantomData }
    }

    /// Re-interpret this dataset as a **population** dataset (zero allocation).
    pub fn into_population(self) -> (r: PopulationData<T>)
        ensures
            r@ == self@,
    {
        DataSet { data: self.data, _marker: PhantomData }
    }

    /// Clone and re-interpret as a sample dataset.
    pub fn as_sample_clone(&self) -> (r: SampleData<T>)
        ensures
            r@ == self@,
    {
        DataSet::from_slice(self.data.as_slice())
    }

    /// Clone and re-interpret as a population dataset.
    pub fn as_population_clone(&self) -> (r: PopulationData<T>)
        ensures
            r@ == self@,
    {
        DataSet::from_slice(self.data.as_slice())
    }

    /// The data points formatted as a list: `[1, 2]`.
    pub fn display_string(&self) -> (r: String)
        ensures
            is_display_of(self@, r@),
    {
        let mut s = String::from_str("[");
        let ghost mut pieces: Seq<Seq<char>> = Seq::empty();
        let n = self.data.len();
        for i in 0..n
            invariant
                n == self@.len(),
                pieces.len() == i,
                forall|k: int| 0 <= k < i ==> #[trigger] is_debug_text(self@[k], pieces[k]),
                s@ == "["@ + join_pieces(pieces),
        {
            let format_item = debug_format_item::<T>;
            let item = format_item(&self.data[i]);
            proof {
                assert(call_ensures(debug_format_item::<T>, (&self@[i as int],), item));
                assert(is_debug_text(self@[i as int], item@));
            }
            if i > 0 {
                s.append(", ");
            }
            s.append(item.as_str());
            proof {
                let next = pieces.push(item@);
                assert(next.drop_last() == pieces);
                pieces = next;
            }
        }
        s.append("]");
        assert(shows_items(self@, pieces) && s@ == list_text(pieces));
        s
    }

    /// `DataSet<Marker>(data)`, such as `DataSet<Population>([1, 2])`.
    pub fn debug_string(&self) -> (r: String)
        ensures
            exists|pieces: Seq<Seq<char>>|
                #[trigger] shows_items(self@, pieces) && r@ == "DataSet<"@ + M::NAME@ + ">("@ + list_text(pieces)
                    + ")"@,
    {
        let mut s = String::from_str("DataSet<");
        s.append(M::NAME);
        s.append(">(");
        let body = self.display_string();
        s.append(body.as_str());
        s.append(")");
        s
    }
}

impl<T: Numeric, M: Marker> Default for DataSet<T, M> {
    fn default() -> (r: Self)
        ensures
            r@ == Seq::<T>::empty(),
    {
        Self::empty()
    }
}

impl<T: Numeric, M: Marker> From<Vec<T>> for DataSet<T, M> {
    fn from(v: Vec<T>) -> (r: Self)
        ensures
            r@ == v@,
    {
        DataSet { data: v, _marker: PhantomData }
    }
}

impl<T: Numeric, M: Marker> vstd::std_specs::convert::FromSpecImpl<Vec<T>> for DataSet<T, M> {
    open spec fn obeys_from_spec() -> bool {
        true
    }

    closed spec fn from_spec(v: Vec<T>) -> Self {
        DataSet { data: v, _marker: PhantomData }
    }
}

impl<T: Numeric, M: Marker, const N: usize> From<[T; N]> for DataSet<T, M> {
    fn from(arr: [T; N]) -> (r: Self)
        ensures
            r@ == arr@,
    {
        Self::from_slice(vstd::array::array_as_slice(&arr))
    }
}

impl<T: Numeric, M: Marker, const N: usize> vstd::std_specs::convert::FromSpecImpl<[T; N]> for DataSet<T, M> {
    /// The conversion is described by the `ensures` of `from` over the view.
    open spec fn obeys_from_spec() -> bool {
        false
    }

    closed spec fn from_spec(v: [T; N]) -> Self {
        arbitrary()
    }
}

impl<T: Numeric, M: Marker> core::ops::Deref for DataSet<T, M> {
    type Target = [T];

    fn deref(&self) -> (r: &[T])
        ensures
            r@ == self@,
    {
        self.data.as_slice()
    }
}

impl<T: Numeric, M: Marker> AsRef<[T]> for DataSet<T, M> {
    fn as_ref(&self) -> (r: &[T])
        ensures
            r@ == self@,
    {
        self.data.as_slice()
    }
}

impl<'a, T: Numeric, M: Marker, const N: usize> From<&'a [T; N]> for DataSet<T, M> {
    fn from(arr: &'a [T; N]) -> (r: Self)
        ensures
            r@ == arr@,
    {
        Self::from_slice(vstd::array::array_as_slice(arr))
    }
}

impl<'a, T: Numeric, M: Marker, const N: usize> vstd::std_specs::convert::FromSpecImpl<&'a [T; N]> for DataSet<T, M> {
    /// The conversion is described by the `ensures` of `from` over the view.
    open spec fn obeys_from_spec() -> bool {
        false
    }

    closed spec fn from_spec(v: &'a [T; N]) -> Self {
        arbitrary()
    }
}

impl<'a, T: Numeric, M: Marker> From<&'a [T]> for DataSet<T, M> {
    fn from(s: &'a [T]) -> (r: Self)
        ensures
            r@ == s@,
    {
        Self::from_slice(s)
    }
}

impl<'a, T: Numeric, M: Marker> vstd::std_specs::convert::FromSpecImpl<&'a [T]> for DataSet<T, M> {
    /// The conversion is described by the `ensures` of `from` over the view.
    open spec fn obeys_from_spec() -> bool {
        false
    }

    closed spec fn from_spec(v: &'a [T]) -> Self {
        arbitrary()
    }
}

impl<T: Numeric, M: Marker> core::ops::DerefMut for DataSet<T, M> {
    fn deref_mut(&mut self) -> (r: &mut [T])
        ensures
            r@ == old(self)@,
            final(r)@ == final(self)@,
    {
        self.data.as_mut_slice()
    }
}

impl<T: Numeric, M: Marker> IntoIterator for DataSet<T, M> {
    type Item = T;

    type IntoIter = std::vec::IntoIter<T>;

    fn into_iter(self) -> (r: Self::IntoIter)
        ensures
            r.remaining() == self@,
    {
        broadcast use vstd::std_specs::vec::axiom_spec_into_iter;

        self.data.into_iter()
    }
}

impl<'a, T: Numeric, M: Marker> IntoIterator for &'a DataSet<T, M> {
    type Item = &'a T;

    type IntoIter = core::slice::Iter<'a, T>;

    fn into_iter(self) -> (r: Self::IntoIter)
        ensures
            r.remaining() == self@.as_ref(),
    {
        broadcast use vstd::std_specs::slice::axiom_spec_slice_iter;

        self.data.as_slice().iter()
    }
}

/// `Iterator::collect` into a `Vec`. It calls `next` until it returns `None`,
/// so, where the iterator obeys Verus's iterator laws, the vector holds what
/// the iterator had left to give, in iteration order.
#[verifier::external_body]
fn collect_vec<T, I: Iterator<Item = T>>(iter: I) -> (r: Vec<T>)
    ensures
        iter.obeys_prophetic_iter_laws() ==> r@ == iter.remaining(),
{
    iter.collect()
}

impl<T: Numeric, M: Marker> DataSet<T, M> {
    /// Collects the items of an iterator as data points, in iteration order.
    pub fn from_iter<I: Iterator<Item = T>>(iter: I) -> (r: Self)
        ensures
            iter.obeys_prophetic_iter_laws() ==> r@ == iter.remaining(),
    {
        DataSet { data: collect_vec(iter), _marker: PhantomData }
    }
}

} // verus!
