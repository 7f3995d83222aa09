//! The windowed row-state cache.
//!
//! [`LoadedRows`] owns one [`RowState`] per row index of a virtualized
//! table. A viewport controller asks it which sub-range of the visible
//! window still needs a fetch ([`LoadedRows::missing_range`]), marks that
//! sub-range as in flight ([`LoadedRows::write_loading`]) and later applies
//! the fetch's outcome ([`LoadedRows::write_loaded`]).

use std::ops::Range;
use vstd::math::min;
use vstd::prelude::*;

verus! {

/// The load state of one row of a virtualized table.
#[derive(Clone, Debug)]
pub enum RowState<T: Clone> {
    /// The row was never requested, or was reset.
    Placeholder,
    /// A fetch covering this row's index is in flight.
    Loading,
    /// The row's value is loaded and displayable.
    Loaded(T),
    /// The most recent fetch covering this row's index failed; the payload
    /// is the human-readable cause.
    Error(String),
}

/// True of a state that still needs a fetch: a row that was never loaded,
/// or whose last fetch failed (so that it is retried).
pub open spec fn needs_load<T: Clone>(s: RowState<T>) -> bool {
    s is Placeholder || s is Error
}

/// The row sequence after resizing to length `n`: entries below `n` are
/// kept, entries appended past the old length are placeholders.
pub open spec fn resized<T: Clone>(s: Seq<RowState<T>>, n: nat) -> Seq<RowState<T>> {
    Seq::new(n, |i: int| if i < s.len() { s[i] } else { RowState::Placeholder })
}

/// The row sequence after growing to length at least `n`; never shrinks.
pub open spec fn grown<T: Clone>(s: Seq<RowState<T>>, n: nat) -> Seq<RowState<T>> {
    if n <= s.len() {
        s
    } else {
        resized(s, n)
    }
}

/// The row sequence with every index in `[start, end)` replaced by `st`
/// and every other entry unchanged.
pub open spec fn filled<T: Clone>(
    s: Seq<RowState<T>>,
    start: int,
    end: int,
    st: RowState<T>,
) -> Seq<RowState<T>> {
    Seq::new(s.len(), |i: int| if start <= i < end { st } else { s[i] })
}

/// The row sequence with the `k`-th of `rows` stored as `Loaded` at index
/// `start + k`, for every `k`, and every other entry unchanged.
pub open spec fn loaded_into<T: Clone>(
    s: Seq<RowState<T>>,
    rows: Seq<T>,
    start: int,
) -> Seq<RowState<T>> {
    Seq::new(
        s.len(),
        |i: int|
            if start <= i < start + rows.len() {
                RowState::Loaded(rows[i - start])
            } else {
                s[i]
            },
    )
}

/// Law: resizing an empty cache to length `n` yields a placeholder at
/// every index in `[0, n)`.
pub proof fn lemma_resized_empty_all_placeholder<T: Clone>(n: nat)
    ensures
        resized(Seq::<RowState<T>>::empty(), n).len() == n,
        forall|i: int|
            0 <= i < n ==> resized(Seq::<RowState<T>>::empty(), n)[i] is Placeholder,
{
}

/// Law: marking the same range as loading twice yields the same state as
/// marking it once.
pub proof fn lemma_write_loading_idempotent<T: Clone>(s: Seq<RowState<T>>, start: int, end: int)
    requires
        0 <= start <= end,
    ensures
        ({
            let once = filled(grown(s, end as nat), start, end, RowState::<T>::Loading);
            filled(grown(once, end as nat), start, end, RowState::<T>::Loading) == once
        }),
{
    let once = filled(grown(s, end as nat), start, end, RowState::<T>::Loading);
    assert(grown(once, end as nat) == once);
    assert(filled(once, start, end, RowState::<T>::Loading) =~= once);
}

/// Law: a successful load whose covered range reaches past the current
/// length grows the cache to the covered end, and every index at or past
/// the old length that the returned rows do not cover holds a placeholder.
pub proof fn lemma_load_growth_fills_placeholder<T: Clone>(
    s: Seq<RowState<T>>,
    rows: Seq<T>,
    start: int,
    end: int,
)
    requires
        0 <= start,
        s.len() <= end,
        start + rows.len() <= end,
    ensures
        loaded_into(grown(s, end as nat), rows, start).len() == end,
        forall|i: int|
            s.len() <= i < end && !(start <= i < start + rows.len()) ==> #[trigger] loaded_into(
                grown(s, end as nat),
                rows,
                start,
            )[i] is Placeholder,
{
}

/// The executable mirror of [`needs_load`]: true of a state that still
/// needs a fetch.
fn state_needs_load<T: Clone>(s: &RowState<T>) -> (r: bool)
    ensures
        r == needs_load(*s),
{
    match s {
        RowState::Placeholder => true,
        RowState::Error(_) => true,
        _ => false,
    }
}

/// The per-index load states of a virtualized table, indexed `0..len()`,
/// contiguous: every index in range holds some state, `Placeholder` by
/// default.
pub struct LoadedRows<T: Clone> {
    rows: Vec<RowState<T>>,
}

impl<T: Clone> View for LoadedRows<T> {
    type V = Seq<RowState<T>>;

    closed spec fn view(&self) -> Seq<RowState<T>> {
        self.rows@
    }
}

impl<T: Clone> LoadedRows<T> {
    /// Creates an empty cache of length zero.
    pub fn new() -> (r: Self)
        ensures
            r@ == Seq::<RowState<T>>::empty(),
    {
        Self { rows: Vec::new() }
    }

    /// The current tracked length.
    pub fn len(&self) -> (r: usize)
        ensures
            r == self@.len(),
    {
        self.rows.len()
    }

    /// Sets the length to `len`: growth appends placeholders, shrinking
    /// drops trailing states. Repeated calls with the same value leave the
    /// cache unchanged.
    pub fn resize(&mut self, len: usize)
        ensures
            final(self)@ == resized(old(self)@, len as nat),
    {
        self.grow_to(len);
        self.rows.truncate(len);
        proof {
            assert(self@ =~= resized(old(self)@, len as nat));
        }
    }

    /// Grows the row vector to length at least `n` by appending
    /// placeholders; never shrinks.
    fn grow_to(&mut self, n: usize)
        ensures
            final(self)@ == grown(old(self)@, n as nat),
    {
        while self.rows.len() < n
            invariant
                old(self)@.len() <= self@.len(),
                self@.len() <= grown(old(self)@, n as nat).len(),
                forall|i: int| 0 <= i < self@.len() ==> self@[i] == grown(old(self)@, n as nat)[i],
            decreases n - self@.len(),
        {
            self.rows.push(RowState::Placeholder);
        }
        proof {
            assert(self@ =~= grown(old(self)@, n as nat));
        }
    }

    /// Marks every index in `range` as in flight, overwriting whatever
    /// state it held. If `range.end` exceeds the current length, the cache
    /// first grows to `range.end`, filling new slots with placeholders.
    ///
    /// Call this right after deciding to issue a fetch, before the fetch
    /// resolves, so that a viewport event arriving in between sees these
    /// indices as no longer missing and issues no duplicate fetch.
    pub fn write_loading(&mut self, range: Range<usize>)
        requires
            range.start <= range.end,
        ensures
            final(self)@ == filled(
                grown(old(self)@, range.end as nat),
                range.start as int,
                range.end as int,
                RowState::<T>::Loading,
            ),
    {
        if range.end > self.rows.len() {
            self.grow_to(range.end);
        }
        let ghost base = grown(old(self)@, range.end as nat);
        let mut i: usize = range.start;
        while i < range.end
            invariant
                range.start <= i <= range.end,
                range.end <= self@.len(),
                self@.len() == base.len(),
                forall|j: int| range.start <= j < i ==> self@[j] == RowState::<T>::Loading,
                forall|j: int|
                    0 <= j < self@.len() && !(range.start <= j < i) ==> self@[j] == base[j],
            decreases range.end - i,
        {
            self.rows[i] = RowState::Loading;
            i = i + 1;
        }
        proof {
            assert(self@ =~= filled(
                base,
                range.start as int,
                range.end as int,
                RowState::<T>::Loading,
            ));
        }
    }

    /// Applies the outcome of a fetch.
    ///
    /// On success the payload is the fetched rows together with the range
    /// they cover: the cache grows to `covered.end` if needed (new slots
    /// become placeholders) and the `k`-th row is stored as `Loaded` at
    /// index `covered.start + k`. When fewer rows than `covered` implies
    /// were returned, only the returned rows are stored and the remaining
    /// indices keep their prior state; excess rows past `covered.end` are
    /// dropped.
    ///
    /// On failure every index in `missing_range` is set to `Error` with
    /// the given cause, growing first if `missing_range.end` exceeds the
    /// current length. Entries outside the affected range are untouched.
    pub fn write_loaded(
        &mut self,
        loading_result: Result<(Vec<T>, Range<usize>), String>,
        missing_range: Range<usize>,
    )
        requires
            loading_result matches Ok(p) ==> p.1.start <= p.1.end,
            loading_result is Err ==> missing_range.start <= missing_range.end,
        ensures
            loading_result matches Ok(p) ==> final(self)@ == loaded_into(
                grown(old(self)@, p.1.end as nat),
                p.0@.take(min(p.0@.len() as int, p.1.end - p.1.start)),
                p.1.start as int,
            ),
            loading_result matches Err(e) ==> final(self)@ == filled(
                grown(old(self)@, missing_range.end as nat),
                missing_range.start as int,
                missing_range.end as int,
                RowState::<T>::Error(e),
            ),
    {
        match loading_result {
            Ok((mut rows, covered)) => {
                if covered.end > self.rows.len() {
                    self.grow_to(covered.end);
                }
                let ghost base = self@;
                let ghost all_rows = rows@;
                let covered_len: usize = covered.end - covered.start;
                if rows.len() > covered_len {
                    rows.truncate(covered_len);
                }
                let ghost taken = all_rows.take(min(all_rows.len() as int, covered_len as int));
                let mut k: usize = rows.len();
                while k > 0
                    invariant
                        k <= taken.len(),
                        rows@ == taken.take(k as int),
                        covered.start + taken.len() <= covered.end,
                        covered.end <= self@.len(),
                        self@.len() == base.len(),
                        forall|j: int|
                            covered.start + k <= j < covered.start + taken.len() ==> self@[j]
                                == RowState::<T>::Loaded(taken[j - covered.start]),
                        forall|j: int|
                            0 <= j < self@.len() && !(covered.start + k <= j < covered.start
                                + taken.len()) ==> self@[j] == base[j],
                    decreases k,
                {
                    k = k - 1;
                    let value = rows.pop().unwrap();
                    self.rows[covered.start + k] = RowState::Loaded(value);
                }
                proof {
                    assert(self@ =~= loaded_into(base, taken, covered.start as int));
                }
            }
            Err(error) => {
                if missing_range.end > self.rows.len() {
                    self.grow_to(missing_range.end);
                }
                let ghost base = self@;
                let mut i: usize = missing_range.start;
                while i < missing_range.end
                    invariant
                        missing_range.start <= i <= missing_range.end,
                        missing_range.end <= self@.len(),
                        self@.len() == base.len(),
                        forall|j: int|
                            missing_range.start <= j < i ==> self@[j] == RowState::<T>::Error(
                                error,
                            ),
                        forall|j: int|
                            0 <= j < self@.len() && !(missing_range.start <= j < i) ==> self@[j]
                                == base[j],
                    decreases missing_range.end - i,
                {
                    self.rows[i] = RowState::Error(error.clone());
                    i = i + 1;
                }
                proof {
                    assert(self@ =~= filled(
                        base,
                        missing_range.start as int,
                        missing_range.end as int,
                        RowState::<T>::Error(error),
                    ));
                }
            }
        }
    }

    /// The bounding sub-range of `range` that still needs a fetch, or
    /// `None` when every index in `range` is already `Loading` or `Loaded`.
    ///
    /// A returned range runs from the first to the last index in `range`
    /// whose state is `Placeholder` or `Error`. It is a bounding range, not
    /// a minimal covering set: indices in between that are already loaded
    /// or in flight are included anyway, so that one contiguous fetch can
    /// be issued.
    pub fn missing_range(&self, range: Range<usize>) -> (r: Option<Range<usize>>)
        requires
            range.start <= range.end,
            range.end <= self@.len(),
        ensures
            r is None <==> (forall|i: int| range.start <= i < range.end ==> !needs_load(self@[i])),
            r matches Some(m) ==> {
                &&& range.start <= m.start < m.end <= range.end
                &&& needs_load(self@[m.start as int])
                &&& needs_load(self@[m.end - 1])
                &&& (forall|i: int| range.start <= i < m.start ==> !needs_load(self@[i]))
                &&& (forall|i: int| m.end <= i < range.end ==> !needs_load(self@[i]))
            },
    {
        let mut first: usize = range.start;
        while first < range.end && !state_needs_load(&self.rows[first])
            invariant
                range.start <= first <= range.end,
                range.end <= self@.len(),
                forall|j: int| range.start <= j < first ==> !needs_load(self@[j]),
            decreases range.end - first,
        {
            first = first + 1;
        }
        if first == range.end {
            return None;
        }
        let mut last: usize = range.end;
        while !state_needs_load(&self.rows[last - 1])
            invariant
                first < last <= range.end,
                range.end <= self@.len(),
                needs_load(self@[first as int]),
                forall|j: int| last <= j < range.end ==> !needs_load(self@[j]),
            decreases last,
        {
            last = last - 1;
        }
        Some(first..last)
    }

    /// Reads the state at one index, which must lie within the tracked
    /// length.
    pub fn get(&self, index: usize) -> (r: &RowState<T>)
        requires
            index < self@.len(),
        ensures
            *r == self@[index as int],
    {
        &self.rows[index]
    }

    /// Reads the states of a sub-range of indices, which must lie within
    /// the tracked length.
    pub fn get_range(&self, range: Range<usize>) -> (r: &[RowState<T>])
        requires
            range.start <= range.end,
            range.end <= self@.len(),
        ensures
            r@ == self@.subrange(range.start as int, range.end as int),
    {
        vstd::slice::slice_subrange(self.rows.as_slice(), range.start, range.end)
    }

    /// Resets every slot to `Placeholder` without changing the length.
    /// Used when the underlying data source went stale.
    pub fn clear(&mut self)
        ensures
            final(self)@.len() == old(self)@.len(),
            forall|i: int|
                0 <= i < old(self)@.len() ==> final(self)@[i] == RowState::<T>::Placeholder,
    {
        let mut i: usize = 0;
        while i < self.rows.len()
            invariant
                i <= self@.len(),
                self@.len() == old(self)@.len(),
                forall|j: int| 0 <= j < i ==> self@[j] == RowState::<T>::Placeholder,
            decreases self@.len() - i,
        {
            self.rows[i] = RowState::Placeholder;
            i = i + 1;
        }
    }
}

} // verus!
