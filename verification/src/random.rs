//! Sources of random numbers: a seeded `StdRng` of the `rand` crate for
//! play, and a provider that replays a fixed list of values for tests.
use vstd::prelude::*;
use rand::rngs::StdRng;
use rand::{Rng, SeedableRng};
use rand::seq::SliceRandom;

verus! {

#[verifier::external_type_specification]
#[verifier::external_body]
pub struct ExStdRng(StdRng);

/// `SeedableRng::seed_from_u64` of `rand_core` for `StdRng`: a generator
/// whose sequence is fixed by `seed`.  Nothing is stated of its state.
#[verifier::external_body]
fn seeded_std_rng(seed: u64) -> StdRng {
    StdRng::seed_from_u64(seed)
}

/// `Rng::gen_range` of `rand` on the half-open range `min..max`: the crate
/// documents a value of the range, and a panic on an empty range (left out
/// by `requires`).
#[verifier::external_body]
fn std_rng_gen_range(rng: &mut StdRng, min: usize, max: usize) -> (r: usize)
    requires
        min < max,
    ensures
        min <= r < max,
{
    rng.gen_range(min..max)
}

/// `SliceRandom::choose` of `rand`: `None` exactly for an empty slice,
/// otherwise a reference to one of its elements (which one is left open).
#[verifier::external_body]
fn std_rng_choose<'a, T>(rng: &mut StdRng, slice: &'a [T]) -> (r: Option<&'a T>)
    ensures
        r is None <==> slice@.len() == 0,
        r matches Some(x) ==> slice@.contains(*x),
{
    slice.choose(rng)
}

/// `SliceRandom::shuffle` of `rand`: its source swaps elements in place, so
/// the result is a permutation of the input (which one is left open).
#[verifier::external_body]
fn std_rng_shuffle<T>(rng: &mut StdRng, v: &mut Vec<T>)
    ensures
        final(v)@.len() == old(v)@.len(),
        final(v)@.to_multiset() == old(v)@.to_multiset(),
{
    v.shuffle(rng)
}

/// `Rng::gen_ratio` of `rand`: `true` with probability
/// `numerator / denominator`; the crate documents that a zero numerator
/// always gives `false` and a numerator equal to the denominator always
/// `true`, and a panic for a zero denominator or a numerator above it (left
/// out by `requires`).
#[verifier::external_body]
fn std_rng_gen_ratio(rng: &mut StdRng, numerator: u32, denominator: u32) -> (r: bool)
    requires
        0 < denominator,
        numerator <= denominator,
    ensures
        numerator == 0 ==> !r,
        numerator == denominator ==> r,
{
    rng.gen_ratio(numerator, denominator)
}

#[verifier::external_type_specification]
#[verifier::external_body]
pub struct ExSystemTime(std::time::SystemTime);

#[verifier::external_type_specification]
#[verifier::external_body]
pub struct ExSystemTimeError(std::time::SystemTimeError);

/// `SystemTime::now` of std: the current time of the system clock.  Nothing
/// is stated of it: it depends on the time.
#[verifier::external_body]
fn system_time_now() -> std::time::SystemTime {
    std::time::SystemTime::now()
}

/// `SystemTime::duration_since` of std from the Unix epoch: the time since
/// the epoch, or an error for a time before it.  Nothing is stated of it: it
/// depends on the time read.
#[verifier::external_body]
fn since_unix_epoch(t: &std::time::SystemTime) -> Result<std::time::Duration, std::time::SystemTimeError> {
    t.duration_since(std::time::UNIX_EPOCH)
}

/// `Duration::as_nanos` of std: the whole duration in nanoseconds, taken
/// as a `u64` (its low 64 bits).  Nothing is stated of the value.
#[verifier::external_body]
fn duration_nanos(d: &std::time::Duration) -> u64 {
    d.as_nanos() as u64
}

/// The system clock as nanoseconds since the Unix epoch, truncated to 64
/// bits, or 0 for a clock set before the epoch.
fn clock_nanos() -> u64 {
    let now = system_time_now();
    match since_unix_epoch(&now) {
        Ok(d) => duration_nanos(&d),
        Err(_) => 0,
    }
}

/// A source of random numbers.
pub trait RandomProvider {
    /// Whether the provider can hand out values.
    spec fn can_draw(&self) -> bool;

    /// A number in `min..max`.
    fn gen_range(&mut self, min: usize, max: usize) -> (r: usize)
        requires
            old(self).can_draw(),
            min < max,
        ensures
            final(self).can_draw(),
            min <= r < max;

    /// One element of `slice`, `None` exactly for an empty slice.
    fn choose_element<'a, T>(&mut self, slice: &'a [T]) -> (r: Option<&'a T>)
        requires
            slice@.len() > 0 ==> old(self).can_draw(),
        ensures
            old(self).can_draw() ==> final(self).can_draw(),
            r is None <==> slice@.len() == 0,
            r matches Some(x) ==> slice@.contains(*x);

    /// Puts the elements of `v` in a new order.
    fn shuffle<T>(&mut self, v: &mut Vec<T>)
        requires
            old(v)@.len() > 1 ==> old(self).can_draw(),
        ensures
            old(self).can_draw() ==> final(self).can_draw(),
            final(v)@.len() == old(v)@.len(),
            final(v)@.to_multiset() == old(v)@.to_multiset();

    /// A random truth value.
    fn gen_bool(&mut self) -> (r: bool)
        requires
            old(self).can_draw(),
        ensures
            final(self).can_draw();
}

/// Random numbers from a seeded `StdRng`.
#[derive(Debug)]
pub struct NativeRandomProvider {
    rng: StdRng,
}

impl NativeRandomProvider {
    /// A provider seeded from the system clock.
    pub fn new() -> Self {
        Self { rng: seeded_std_rng(clock_nanos()) }
    }

    /// A provider seeded with `seed`: two providers with the same seed hand
    /// out the same numbers.
    pub fn with_seed(seed: u64) -> Self {
        Self { rng: seeded_std_rng(seed) }
    }
}

impl RandomProvider for NativeRandomProvider {
    open spec fn can_draw(&self) -> bool {
        true
    }

    fn gen_range(&mut self, min: usize, max: usize) -> (r: usize) {
        std_rng_gen_range(&mut self.rng, min, max)
    }

    fn choose_element<'a, T>(&mut self, slice: &'a [T]) -> (r: Option<&'a T>) {
        std_rng_choose(&mut self.rng, slice)
    }

    fn shuffle<T>(&mut self, v: &mut Vec<T>) {
        std_rng_shuffle(&mut self.rng, v)
    }

    fn gen_bool(&mut self) -> (r: bool) {
        std_rng_gen_ratio(&mut self.rng, 1, 2)
    }
}

/// A provider that hands out a fixed list of values, from the start again
/// once the list is used up.
#[derive(Debug)]
pub struct DeterministicRandomProvider {
    values: Vec<usize>,
    index: usize,
}

/// Position of the next value after one draw from position `idx` of a list
/// of `len` values: the following one, or the first again after the last.
pub open spec fn index_after_draw(idx: int, len: int) -> int {
    if idx + 1 < len { idx + 1 } else { 0 }
}

/// What the replaying provider's shuffle makes of `s` when its next value is
/// at `idx` of `values` and the positions below `i` remain to be done: the
/// sequence and the position of the next value afterwards.  Position `i - 1`
/// is exchanged with position `values[idx] % i`, then the rest follows.
pub open spec fn fisher_yates<T>(s: Seq<T>, values: Seq<usize>, idx: int, i: int) -> (Seq<T>, int)
    decreases i,
{
    if i <= 1 {
        (s, idx)
    } else {
        let k = i - 1;
        let j = (values[idx] as int) % i;
        fisher_yates(s.update(k, s[j]).update(j, s[k]), values, index_after_draw(idx, values.len() as int), k)
    }
}

impl DeterministicRandomProvider {
    /// The list of values, in the order they are handed out.
    pub closed spec fn values_seq(&self) -> Seq<usize> {
        self.values@
    }

    /// Position of the next value handed out.
    pub closed spec fn next_index(&self) -> int {
        if self.index >= self.values@.len() { 0 } else { self.index as int }
    }

    /// A provider replaying `values`, starting with the first.
    pub fn new(values: Vec<usize>) -> (p: Self)
        ensures
            p.values_seq() == values@,
            p.next_index() == 0,
            p.can_draw() == (values@.len() > 0),
    {
        Self { values, index: 0 }
    }

    /// Shared step of the draws: hands out the next value of the list.
    fn draw(&mut self) -> (v: usize)
        requires
            old(self).can_draw(),
        ensures
            final(self).can_draw(),
            final(self).values_seq() == old(self).values_seq(),
            v == old(self).values_seq()[old(self).next_index()],
            final(self).next_index() == if old(self).next_index() + 1 < old(self).values_seq().len() {
                old(self).next_index() + 1
            } else {
                0
            },
    {
        if self.index >= self.values.len() {
            self.index = 0;
        }
        let value = self.values[self.index];
        self.index = self.index + 1;
        value
    }

    /// Exchanges the elements at `i` and `j` of `v`.
    fn swap_elements<T>(v: &mut Vec<T>, i: usize, j: usize)
        requires
            j <= i < old(v)@.len(),
        ensures
            final(v)@ == old(v)@.update(i as int, old(v)@[j as int]).update(j as int, old(v)@[i as int]),
    {
        if i != j {
            let x_i = v.remove(i);
            let x_j = v.remove(j);
            v.insert(j, x_i);
            v.insert(i, x_j);
            proof {
                assert(v@ =~= old(v)@.update(i as int, old(v)@[j as int]).update(j as int, old(v)@[i as int]));
            }
        } else {
            proof {
                assert(v@ =~= old(v)@.update(i as int, old(v)@[j as int]).update(j as int, old(v)@[i as int]));
            }
        }
    }
}

/// Exchanging two elements keeps the multiset of a sequence.
proof fn lemma_swap_multiset<T>(s: Seq<T>, i: int, j: int)
    requires
        0 <= i < s.len(),
        0 <= j < s.len(),
    ensures
        s.update(i, s[j]).update(j, s[i]).to_multiset() == s.to_multiset(),
{
    broadcast use vstd::seq_lib::to_multiset_update;
    broadcast use vstd::multiset::group_multiset_axioms;
    let t = s.update(i, s[j]);
    assert(t.to_multiset() == s.to_multiset().insert(s[j]).remove(s[i]));
    assert(t[j] == if i == j { s[j] } else { s[j] });
    assert(t.update(j, s[i]).to_multiset() == t.to_multiset().insert(s[i]).remove(t[j]));
    assert(s.to_multiset().insert(s[j]).remove(s[i]).insert(s[i]).remove(s[j]) =~= s.to_multiset()) by {
        s.to_multiset_ensures();
    }
}

impl RandomProvider for DeterministicRandomProvider {
    open spec fn can_draw(&self) -> bool {
        self.values_seq().len() > 0
    }

    /// The next value of the list, reduced into `min..max`.
    fn gen_range(&mut self, min: usize, max: usize) -> (r: usize)
        ensures
            r == min + (old(self).values_seq()[old(self).next_index()] as int) % ((max - min) as int),
            final(self).values_seq() == old(self).values_seq(),
            final(self).next_index() == index_after_draw(old(self).next_index(), old(self).values_seq().len() as int),
    {
        let value = self.draw();
        min + (value % (max - min))
    }

    /// The element at the next value of the list, reduced into the slice's
    /// length; an empty slice gives `None` and uses no value.
    fn choose_element<'a, T>(&mut self, slice: &'a [T]) -> (r: Option<&'a T>)
        ensures
            slice@.len() > 0 ==> r == Some(
                &slice@[(old(self).values_seq()[old(self).next_index()] as int) % (slice@.len() as int)],
            ),
            final(self).values_seq() == old(self).values_seq(),
            final(self).next_index() == if slice@.len() > 0 {
                index_after_draw(old(self).next_index(), old(self).values_seq().len() as int)
            } else {
                old(self).next_index()
            },
    {
        if slice.len() == 0 {
            return None;
        }
        let index = self.gen_range(0, slice.len());
        Some(&slice[index])
    }

    /// Fisher–Yates: from the last position down, each element is exchanged
    /// with one at or below it chosen by the next value of the list.
    fn shuffle<T>(&mut self, v: &mut Vec<T>)
        ensures
            final(self).values_seq() == old(self).values_seq(),
            final(v)@ == fisher_yates(old(v)@, old(self).values_seq(), old(self).next_index(), old(v)@.len() as int).0,
            final(self).next_index() == fisher_yates(
                old(v)@,
                old(self).values_seq(),
                old(self).next_index(),
                old(v)@.len() as int,
            ).1,
    {
        let ghost original = v@;
        let ghost outcome = fisher_yates(original, self.values_seq(), self.next_index(), original.len() as int);
        let mut i: usize = v.len();
        while i > 1
            invariant
                i <= v@.len(),
                v@.len() == original.len(),
                v@.to_multiset() == original.to_multiset(),
                i > 1 ==> self.can_draw(),
                old(v)@.len() > 1 ==> self.can_draw(),
                old(self).can_draw() ==> self.can_draw(),
                self.values_seq() == old(self).values_seq(),
                fisher_yates(v@, self.values_seq(), self.next_index(), i as int) == outcome,
            decreases i,
        {
            i = i - 1;
            let j = self.gen_range(0, i + 1);
            proof {
                lemma_swap_multiset(v@, i as int, j as int);
            }
            Self::swap_elements(v, i, j);
        }
    }

    /// Whether the next value of the list is odd.
    fn gen_bool(&mut self) -> (r: bool)
        ensures
            r == (old(self).values_seq()[old(self).next_index()] % 2 == 1),
            final(self).values_seq() == old(self).values_seq(),
            final(self).next_index() == index_after_draw(old(self).next_index(), old(self).values_seq().len() as int),
    {
        self.gen_range(0, 2) == 1
    }
}

/// A provider of either kind.
#[derive(Debug)]
pub enum RandomProviderImpl {
    Native(NativeRandomProvider),
    Deterministic(DeterministicRandomProvider),
}

impl RandomProvider for RandomProviderImpl {
    open spec fn can_draw(&self) -> bool {
        match self {
            RandomProviderImpl::Native(p) => p.can_draw(),
            RandomProviderImpl::Deterministic(p) => p.can_draw(),
        }
    }

    /// A replaying provider gives its next value reduced into `min..max`
    /// (see `DeterministicRandomProvider::gen_range`); a provider keeps its
    /// kind.
    fn gen_range(&mut self, min: usize, max: usize) -> (r: usize)
        ensures
            ((*old(self)) is Native) == ((*final(self)) is Native),
            (*old(self)) matches RandomProviderImpl::Deterministic(p) ==> (*final(self)) matches RandomProviderImpl::Deterministic(q) && {
                &&& r == min + (p.values_seq()[p.next_index()] as int) % ((max - min) as int)
                &&& q.values_seq() == p.values_seq()
                &&& q.next_index() == index_after_draw(p.next_index(), p.values_seq().len() as int)
            },
    {
        match self {
            RandomProviderImpl::Native(p) => p.gen_range(min, max),
            RandomProviderImpl::Deterministic(p) => p.gen_range(min, max),
        }
    }

    fn choose_element<'a, T>(&mut self, slice: &'a [T]) -> (r: Option<&'a T>) {
        match self {
            RandomProviderImpl::Native(p) => p.choose_element(slice),
            RandomProviderImpl::Deterministic(p) => p.choose_element(slice),
        }
    }

    /// A replaying provider shuffles as `fisher_yates` says (see
    /// `DeterministicRandomProvider::shuffle`); a provider keeps its kind.
    fn shuffle<T>(&mut self, v: &mut Vec<T>)
        ensures
            ((*old(self)) is Native) == ((*final(self)) is Native),
            (*old(self)) matches RandomProviderImpl::Deterministic(p) ==> (*final(self)) matches RandomProviderImpl::Deterministic(q) && {
                let outcome = fisher_yates(old(v)@, p.values_seq(), p.next_index(), old(v)@.len() as int);
                &&& final(v)@ == outcome.0
                &&& q.values_seq() == p.values_seq()
                &&& q.next_index() == outcome.1
            },
    {
        match self {
            RandomProviderImpl::Native(p) => p.shuffle(v),
            RandomProviderImpl::Deterministic(p) => p.shuffle(v),
        }
    }

    /// A replaying provider tells whether its next value is odd (see
    /// `DeterministicRandomProvider::gen_bool`); a provider keeps its kind.
    fn gen_bool(&mut self) -> (r: bool)
        ensures
            ((*old(self)) is Native) == ((*final(self)) is Native),
            (*old(self)) matches RandomProviderImpl::Deterministic(p) ==> (*final(self)) matches RandomProviderImpl::Deterministic(q) && {
                &&& r == (p.values_seq()[p.next_index()] % 2 == 1)
                &&& q.values_seq() == p.values_seq()
                &&& q.next_index() == index_after_draw(p.next_index(), p.values_seq().len() as int)
            },
    {
        match self {
            RandomProviderImpl::Native(p) => p.gen_bool(),
            RandomProviderImpl::Deterministic(p) => p.gen_bool(),
        }
    }
}

/// The provider used in play: a `StdRng` seeded from the system clock.
pub fn create_default_random_provider() -> (p: RandomProviderImpl)
    ensures
        p is Native,
        p.can_draw(),
{
    RandomProviderImpl::Native(NativeRandomProvider::new())
}

} // verus!
