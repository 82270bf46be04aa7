//! Handle registry: a mapping from (opaque handle value, logical type tag)
//! pairs to exclusively owned per-object data records.
//!
//! Handle value 0 is a reserved NULL sentinel and never resolves. Handles are
//! either minted externally (by the wrapped runtime) and attached with
//! [`HandleRegistry::attach`], or self-issued by [`HandleRegistry::create`]
//! from a monotonically increasing counter starting at 1, never reused within
//! the registry's lifetime. At most one entry exists per (handle, tag) pair at
//! any instant; a stale or absent key always yields a lookup failure, never a
//! crash or a silent default. Insertion overwrites any existing entry for the
//! same key (last write wins); a failed operation leaves the registry exactly
//! as it was.

use crate::codes::LayerError;
use vstd::map::*;
use vstd::prelude::*;

verus! {

/// One stored record, keyed by (handle value, logical type tag).
struct RegistryEntry<D> {
    raw: u64,
    tag: u64,
    data: D,
}

/// The key under which an entry is stored.
spec fn entry_key<D>(e: RegistryEntry<D>) -> (u64, u64) {
    (e.raw, e.tag)
}

/// The map that a sequence of entries stands for; a later entry with the
/// same key wins, so pushing an entry acts as insert-or-overwrite.
spec fn entries_map<D>(s: Seq<RegistryEntry<D>>) -> Map<(u64, u64), D>
    decreases s.len(),
{
    if s.len() == 0 {
        Map::empty()
    } else {
        entries_map(s.drop_last()).insert(entry_key(s.last()), s.last().data)
    }
}

/// No two entries share a key.
spec fn keys_distinct<D>(s: Seq<RegistryEntry<D>>) -> bool {
    forall|i: int, j: int|
        0 <= i < j < s.len() ==> entry_key(#[trigger] s[i]) != entry_key(#[trigger] s[j])
}

/// With pairwise distinct keys, `entries_map` has an entry for a key exactly
/// when some element carries it, and that element's data is the map's value.
proof fn lemma_entries_map_characterization<D>(s: Seq<RegistryEntry<D>>, k: (u64, u64))
    requires
        keys_distinct(s),
    ensures
        entries_map(s).contains_key(k) <==> exists|i: int|
            0 <= i < s.len() && entry_key(#[trigger] s[i]) == k,
        forall|i: int|
            0 <= i < s.len() && entry_key(#[trigger] s[i]) == k ==> entries_map(s)[k] == s[i].data,
    decreases s.len(),
{
    if s.len() == 0 {
    } else {
        let t = s.drop_last();
        let last = s.last();
        let n = s.len() - 1;
        assert(forall|i: int| 0 <= i < n ==> t[i] == s[i]);
        lemma_entries_map_characterization(t, k);
        if entry_key(last) == k {
            assert(entry_key(s[n]) == k);
            assert(entries_map(s)[k] == last.data);
            assert forall|i: int|
                0 <= i < s.len() && entry_key(#[trigger] s[i]) == k implies entries_map(s)[k]
                == s[i].data by {
                if i < n {
                    assert(entry_key(s[i]) == entry_key(s[n]));
                    assert(false);
                }
            }
        } else {
            assert(entries_map(s).contains_key(k) <==> entries_map(t).contains_key(k));
            assert forall|i: int|
                0 <= i < s.len() && entry_key(#[trigger] s[i]) == k implies entries_map(s)[k]
                == s[i].data by {
                assert(i != n);
                assert(t[i] == s[i]);
                assert(entries_map(t)[k] == t[i].data);
            }
            if exists|i: int| 0 <= i < s.len() && entry_key(#[trigger] s[i]) == k {
                let i = choose|i: int| 0 <= i < s.len() && entry_key(#[trigger] s[i]) == k;
                assert(i != n);
                assert(entry_key(t[i]) == k);
            }
        }
    }
}

/// What a lookup of `(raw, tag)` in registry state `m` yields: the stored
/// record, unless the handle is 0 or no entry exists under the key.
pub open spec fn get_spec<D>(m: Map<(u64, u64), D>, raw: u64, tag: u64) -> Result<D, LayerError> {
    if raw != 0 && m.contains_key((raw, tag)) {
        Ok(m[(raw, tag)])
    } else {
        Err(LayerError::HandleInvalid)
    }
}

/// What removing `(raw, tag)` from registry state `m` yields: the record that
/// left, unless the handle is 0 or no entry exists under the key.
pub open spec fn remove_spec<D>(m: Map<(u64, u64), D>, raw: u64, tag: u64) -> Result<
    D,
    LayerError,
> {
    if raw != 0 && m.contains_key((raw, tag)) {
        Ok(m[(raw, tag)])
    } else {
        Err(LayerError::HandleInvalid)
    }
}

/// Finds the index of the entry keyed `(raw, tag)`, if one exists.
fn find_entry<D>(entries: &Vec<RegistryEntry<D>>, raw: u64, tag: u64) -> (r: Option<usize>)
    ensures
        match r {
            Some(i) => i < entries@.len() && entries@[i as int].raw == raw
                && entries@[i as int].tag == tag,
            None => forall|i: int|
                0 <= i < entries@.len() ==> entry_key(#[trigger] entries@[i]) != (raw, tag),
        },
{
    let n = entries.len();
    let mut i: usize = 0;
    while i < n
        invariant
            n == entries@.len(),
            i <= n,
            forall|j: int| 0 <= j < i ==> entry_key(#[trigger] entries@[j]) != (raw, tag),
        decreases n - i,
    {
        if entries[i].raw == raw && entries[i].tag == tag {
            return Some(i);
        }
        assert(entry_key(entries@[i as int]) != (raw, tag));
        i = i + 1;
    }
    None
}

/// A registry of per-object data records, keyed by (handle value, type tag).
///
/// The abstraction (`self@`) is the map from keys to stored records;
/// `self.next_handle()` is the counter value the next `create` call will mint.
pub struct HandleRegistry<D> {
    entries: Vec<RegistryEntry<D>>,
    next_raw: u64,
}

impl<D> View for HandleRegistry<D> {
    type V = Map<(u64, u64), D>;

    closed spec fn view(&self) -> Map<(u64, u64), D> {
        entries_map(self.entries@)
    }
}

impl<D> HandleRegistry<D> {
    /// Well-formedness: entry keys are pairwise distinct, and the counter has
    /// not yet minted 0 (it starts at 1 and only grows).
    pub closed spec fn wf(&self) -> bool {
        keys_distinct(self.entries@) && self.next_raw >= 1
    }

    /// The handle value the next `create` call will return.
    pub closed spec fn next_handle(&self) -> u64 {
        self.next_raw
    }

    /// An explicitly initialized, empty registry whose counter starts at 1.
    pub fn new() -> (r: Self)
        ensures
            r.wf(),
            r@ == Map::<(u64, u64), D>::empty(),
            r.next_handle() == 1,
    {
        HandleRegistry { entries: Vec::new(), next_raw: 1 }
    }

    /// Looks up the record attached to `(raw, tag)`. Fails with
    /// `HandleInvalid` if `raw` is 0, if no entry exists, or if the entry
    /// under this handle value belongs to another type tag.
    pub fn get(&self, raw: u64, tag: u64) -> (r: Result<&D, LayerError>)
        requires
            self.wf(),
        ensures
            match get_spec(self@, raw, tag) {
                Ok(v) => r matches Ok(d) && *d == v,
                Err(e) => r matches Err(e2) && e2 == e,
            },
    {
        if raw == 0 {
            return Err(LayerError::HandleInvalid);
        }
        proof {
            lemma_entries_map_characterization(self.entries@, (raw, tag));
        }
        match find_entry(&self.entries, raw, tag) {
            Some(i) => Ok(&self.entries[i].data),
            None => Err(LayerError::HandleInvalid),
        }
    }

    /// Borrows the record attached to `(raw, tag)` mutably; the entry is
    /// updated in place with whatever the caller leaves behind the borrow.
    /// Fails with `HandleInvalid` exactly as `get` does, leaving the registry
    /// unchanged.
    pub fn get_mut(&mut self, raw: u64, tag: u64) -> (r: Result<&mut D, LayerError>)
        requires
            old(self).wf(),
        ensures
            raw != 0 && old(self)@.contains_key((raw, tag)) ==> (r matches Ok(d)
                && *d == old(self)@[(raw, tag)]
                && final(self)@ == old(self)@.insert((raw, tag), *final(d))
                && final(self).wf()
                && final(self).next_handle() == old(self).next_handle()),
            !(raw != 0 && old(self)@.contains_key((raw, tag))) ==> (r matches Err(e)
                && e == LayerError::HandleInvalid
                && *final(self) == *old(self)),
    {
        if raw == 0 {
            return Err(LayerError::HandleInvalid);
        }
        proof {
            lemma_entries_map_characterization(self.entries@, (raw, tag));
        }
        match find_entry(&self.entries, raw, tag) {
            Some(i) => {
                proof {
                    assert forall|e2: RegistryEntry<D>| entry_key(e2) == (raw, tag) implies
                        keys_distinct(#[trigger] self.entries@.update(i as int, e2))
                        && entries_map(self.entries@.update(i as int, e2)) == entries_map(
                        self.entries@,
                    ).insert((raw, tag), e2.data) by {
                        lemma_update_map(self.entries@, i as int, e2);
                    }
                }
                Ok(&mut self.entries[i].data)
            },
            None => Err(LayerError::HandleInvalid),
        }
    }

    /// Inserts `data` at the externally supplied key `(raw, tag)`,
    /// overwriting any existing entry (last write wins, not an error).
    pub fn attach(&mut self, raw: u64, tag: u64, data: D)
        requires
            old(self).wf(),
        ensures
            final(self).wf(),
            final(self)@ == old(self)@.insert((raw, tag), data),
            final(self).next_handle() == old(self).next_handle(),
    {
        proof {
            lemma_entries_map_characterization(self.entries@, (raw, tag));
        }
        let ghost s0 = self.entries@;
        match find_entry(&self.entries, raw, tag) {
            Some(i) => {
                proof {
                    lemma_swap_remove_map(s0, i as int);
                }
                let _previous = self.entries.swap_remove(i);
                let ghost s1 = self.entries@;
                self.entries.push(RegistryEntry { raw, tag, data });
                proof {
                    assert(self.entries@.drop_last() =~= s1);
                    lemma_distinct_push(s1, RegistryEntry { raw, tag, data });
                    assert(entries_map(self.entries@) =~= entries_map(s0).insert(
                        (raw, tag),
                        data,
                    ));
                }
            },
            None => {
                self.entries.push(RegistryEntry { raw, tag, data });
                proof {
                    assert(self.entries@.drop_last() =~= s0);
                    lemma_distinct_push(s0, RegistryEntry { raw, tag, data });
                }
            },
        }
    }

    /// Removes the entry at `(raw, tag)` and hands its record back. Fails
    /// with `HandleInvalid` if `raw` is 0 or no entry exists; the registry is
    /// then left exactly as it was.
    pub fn remove(&mut self, raw: u64, tag: u64) -> (r: Result<D, LayerError>)
        requires
            old(self).wf(),
        ensures
            final(self).wf(),
            final(self).next_handle() == old(self).next_handle(),
            match remove_spec(old(self)@, raw, tag) {
                Ok(v) => r matches Ok(d) && d == v && final(self)@ == old(self)@.remove(
                    (raw, tag),
                ),
                Err(e) => r matches Err(e2) && e2 == e && *final(self) == *old(self),
            },
    {
        if raw == 0 {
            return Err(LayerError::HandleInvalid);
        }
        proof {
            lemma_entries_map_characterization(self.entries@, (raw, tag));
        }
        let ghost s0 = self.entries@;
        match find_entry(&self.entries, raw, tag) {
            Some(i) => {
                proof {
                    lemma_swap_remove_map(s0, i as int);
                }
                let e = self.entries.swap_remove(i);
                Ok(e.data)
            },
            None => Err(LayerError::HandleInvalid),
        }
    }

    /// Allocates the next counter value, inserts `data` under it, and returns
    /// the new handle value. Never returns 0; successive calls return
    /// strictly increasing, never-reused values.
    pub fn create(&mut self, tag: u64, data: D) -> (h: u64)
        requires
            old(self).wf(),
            old(self).next_handle() < u64::MAX,
        ensures
            final(self).wf(),
            h == old(self).next_handle(),
            h != 0,
            final(self).next_handle() == old(self).next_handle() + 1,
            final(self)@ == old(self)@.insert((h, tag), data),
    {
        let h = self.next_raw;
        self.next_raw = self.next_raw + 1;
        self.attach(h, tag, data);
        h
    }

    /// Teardown: discards every entry. The counter is kept, so handles minted
    /// before the teardown are never reissued afterwards.
    pub fn clear(&mut self)
        requires
            old(self).wf(),
        ensures
            final(self).wf(),
            final(self)@ == Map::<(u64, u64), D>::empty(),
            final(self).next_handle() == old(self).next_handle(),
    {
        self.entries.clear();
    }
}

/// A typed view of a raw handle value. A handle type knows its opaque 64-bit
/// value and the type tag of its logical category, so that numerically
/// overlapping handle spaces of different categories never collide in the
/// registry.
pub trait Handle: Sized + Copy {
    /// The raw 64-bit handle value.
    spec fn raw_spec(&self) -> u64;

    /// The tag of this handle type's logical category.
    spec fn tag_spec() -> u64;

    fn from_raw(raw: u64) -> (h: Self)
        ensures
            h.raw_spec() == raw,
    ;

    fn into_raw(self) -> (r: u64)
        ensures
            r == self.raw_spec(),
    ;

    fn tag() -> (t: u64)
        ensures
            t == Self::tag_spec(),
    ;

    /// Rejects the reserved NULL handle value 0.
    fn validate(self) -> (r: Result<(), LayerError>)
        ensures
            r == if self.raw_spec() == 0 {
                Result::<(), LayerError>::Err(LayerError::HandleInvalid)
            } else {
                Result::<(), LayerError>::Ok(())
            },
    {
        if self.into_raw() == 0 {
            Err(LayerError::HandleInvalid)
        } else {
            Ok(())
        }
    }

    /// Looks up this handle's record in `reg`; the typed form of
    /// [`HandleRegistry::get`].
    fn data<'a, D>(self, reg: &'a HandleRegistry<D>) -> (r: Result<&'a D, LayerError>)
        requires
            reg.wf(),
        ensures
            match get_spec(reg@, self.raw_spec(), Self::tag_spec()) {
                Ok(v) => r matches Ok(d) && *d == v,
                Err(e) => r matches Err(e2) && e2 == e,
            },
    {
        reg.get(self.into_raw(), Self::tag())
    }

    /// Attaches `data` under this handle; the typed form of
    /// [`HandleRegistry::attach`].
    fn add_data<D>(self, reg: &mut HandleRegistry<D>, data: D)
        requires
            old(reg).wf(),
        ensures
            final(reg).wf(),
            final(reg)@ == old(reg)@.insert((self.raw_spec(), Self::tag_spec()), data),
            final(reg).next_handle() == old(reg).next_handle(),
    {
        reg.attach(self.into_raw(), Self::tag(), data)
    }

    /// Removes this handle's record; the typed form of
    /// [`HandleRegistry::remove`].
    fn remove_data<D>(self, reg: &mut HandleRegistry<D>) -> (r: Result<D, LayerError>)
        requires
            old(reg).wf(),
        ensures
            final(reg).wf(),
            final(reg).next_handle() == old(reg).next_handle(),
            match remove_spec(old(reg)@, self.raw_spec(), Self::tag_spec()) {
                Ok(v) => r matches Ok(d) && d == v && final(reg)@ == old(reg)@.remove(
                    (self.raw_spec(), Self::tag_spec()),
                ),
                Err(e) => r matches Err(e2) && e2 == e && *final(reg) == *old(reg),
            },
    {
        reg.remove(self.into_raw(), Self::tag())
    }
}

/// A handle never inserted — a key absent from the registry state — always
/// fails lookup with `HandleInvalid`.
pub proof fn lemma_get_never_inserted<D>(m: Map<(u64, u64), D>, raw: u64, tag: u64)
    requires
        !m.contains_key((raw, tag)),
    ensures
        get_spec(m, raw, tag) == Err::<D, LayerError>(LayerError::HandleInvalid),
{
}

/// Identity round trip: attaching `data` at a nonzero handle value (such as
/// one minted by `create`) and then looking that handle up returns `data`
/// unchanged.
pub proof fn lemma_attach_get_round_trip<D>(m: Map<(u64, u64), D>, raw: u64, tag: u64, data: D)
    requires
        raw != 0,
    ensures
        get_spec(m.insert((raw, tag), data), raw, tag) == Ok::<D, LayerError>(data),
{
}

/// After removing a previously attached handle, lookup fails with
/// `HandleInvalid`, and a second removal fails with `HandleInvalid` too.
pub proof fn lemma_remove_then_get<D>(m: Map<(u64, u64), D>, raw: u64, tag: u64)
    requires
        m.contains_key((raw, tag)),
    ensures
        get_spec(m.remove((raw, tag)), raw, tag) == Err::<D, LayerError>(LayerError::HandleInvalid),
        remove_spec(m.remove((raw, tag)), raw, tag) == Err::<D, LayerError>(
            LayerError::HandleInvalid,
        ),
{
}

/// The handle values that `n` successive `create` calls mint when the
/// counter stands at `first`: by `create`'s contract, call number `i` returns
/// `first + i` and steps the counter by one.
pub open spec fn minted_handles(first: u64, n: nat) -> Seq<u64> {
    Seq::new(n, |i: int| (first + i) as u64)
}

/// `create` never mints 0, and successive single-threaded calls return
/// strictly increasing — hence pairwise distinct — handle values.
pub proof fn lemma_sequential_creates_distinct(first: u64, n: nat)
    requires
        1 <= first,
        first + n <= u64::MAX as int + 1,
    ensures
        forall|i: int| 0 <= i < n ==> minted_handles(first, n)[i] != 0,
        forall|i: int, j: int|
            0 <= i < j < n ==> minted_handles(first, n)[i] < minted_handles(first, n)[j],
{
}

/// Appending an entry whose key is fresh keeps keys pairwise distinct.
proof fn lemma_distinct_push<D>(s: Seq<RegistryEntry<D>>, e: RegistryEntry<D>)
    requires
        keys_distinct(s),
        forall|i: int| 0 <= i < s.len() ==> entry_key(#[trigger] s[i]) != entry_key(e),
    ensures
        keys_distinct(s.push(e)),
{
    let s2 = s.push(e);
    assert forall|i: int, j: int|
        0 <= i < j < s2.len() implies entry_key(#[trigger] s2[i]) != entry_key(
        #[trigger] s2[j],
    ) by {
        if j < s.len() {
            assert(s2[i] == s[i] && s2[j] == s[j]);
        } else {
            assert(s2[j] == e && s2[i] == s[i]);
        }
    }
}

/// Replacing the element at `i` by one carrying the same key keeps keys
/// distinct and overwrites exactly that key's value in the map.
proof fn lemma_update_map<D>(s: Seq<RegistryEntry<D>>, i: int, e2: RegistryEntry<D>)
    requires
        keys_distinct(s),
        0 <= i < s.len(),
        entry_key(e2) == entry_key(s[i]),
    ensures
        keys_distinct(s.update(i, e2)),
        entries_map(s.update(i, e2)) == entries_map(s).insert(entry_key(s[i]), e2.data),
{
    let k = entry_key(s[i]);
    let s2 = s.update(i, e2);
    assert forall|a: int, b: int|
        0 <= a < b < s2.len() implies entry_key(#[trigger] s2[a]) != entry_key(
        #[trigger] s2[b],
    ) by {
        assert(entry_key(s2[a]) == entry_key(s[a]) && entry_key(s2[b]) == entry_key(s[b]));
    }
    lemma_entries_map_characterization(s, k);
    assert_maps_equal!(entries_map(s2), entries_map(s).insert(k, e2.data), k2 => {
        lemma_entries_map_characterization(s2, k2);
        lemma_entries_map_characterization(s, k2);
        if entries_map(s2).contains_key(k2) {
            let x = choose|x: int| 0 <= x < s2.len() && entry_key(#[trigger] s2[x]) == k2;
            if x == i {
                assert(k2 == k);
                assert(entries_map(s2)[k2] == e2.data);
            } else {
                assert(s2[x] == s[x]);
                assert(entry_key(s[x]) == k2);
                if k2 == k {
                    assert(entry_key(s[x]) == entry_key(s[i]));
                    assert(false);
                }
                assert(entries_map(s)[k2] == s[x].data);
                assert(entries_map(s2)[k2] == s2[x].data);
            }
        }
        if k2 == k {
            assert(entry_key(s2[i]) == k2);
            assert(entries_map(s2).contains_key(k2));
        } else if entries_map(s).contains_key(k2) {
            let y = choose|y: int| 0 <= y < s.len() && entry_key(#[trigger] s[y]) == k2;
            assert(y != i);
            assert(s2[y] == s[y]);
            assert(entry_key(s2[y]) == k2);
            assert(entries_map(s2).contains_key(k2));
        }
    });
}

/// Removing the element at `i` by a swap with the last element keeps keys
/// distinct and removes exactly that element's key from the map.
proof fn lemma_swap_remove_map<D>(s: Seq<RegistryEntry<D>>, i: int)
    requires
        keys_distinct(s),
        0 <= i < s.len(),
    ensures
        keys_distinct(s.update(i, s.last()).drop_last()),
        entries_map(s.update(i, s.last()).drop_last()) == entries_map(s).remove(entry_key(s[i])),
{
    let k = entry_key(s[i]);
    let n = s.len() - 1;
    let s2 = s.update(i, s.last()).drop_last();
    assert(s2.len() == n);
    assert(forall|x: int|
        0 <= x < n ==> #[trigger] s2[x] == (if x == i {
            s[n]
        } else {
            s[x]
        }));
    assert forall|a: int, b: int|
        0 <= a < b < s2.len() implies entry_key(#[trigger] s2[a]) != entry_key(
        #[trigger] s2[b],
    ) by {
        let a2 = if a == i {
            n
        } else {
            a
        };
        let b2 = if b == i {
            n
        } else {
            b
        };
        assert(s2[a] == s[a2] && s2[b] == s[b2]);
        assert(a2 != b2);
    }
    lemma_entries_map_characterization(s, k);
    assert_maps_equal!(entries_map(s2), entries_map(s).remove(k), k2 => {
        lemma_entries_map_characterization(s2, k2);
        lemma_entries_map_characterization(s, k2);
        if entries_map(s2).contains_key(k2) {
            let x = choose|x: int| 0 <= x < s2.len() && entry_key(#[trigger] s2[x]) == k2;
            let x2 = if x == i { n } else { x };
            assert(s[x2] == s2[x]);
            assert(entry_key(s[x2]) == k2);
            assert(entries_map(s).contains_key(k2));
            assert(entries_map(s)[k2] == s[x2].data);
            assert(entries_map(s2)[k2] == s2[x].data);
            if k2 == k {
                assert(entry_key(s[x2]) == entry_key(s[i]));
                assert(x2 == i);
                assert(x != i || s2[x] == s[n]);
                assert(false);
            }
        }
        if entries_map(s).contains_key(k2) && k2 != k {
            let y = choose|y: int| 0 <= y < s.len() && entry_key(#[trigger] s[y]) == k2;
            assert(y != i);
            if y == n {
                assert(i < n || entry_key(s[y]) == k);
                assert(s2[i] == s[n]);
                assert(entry_key(s2[i]) == k2);
            } else {
                assert(s2[y] == s[y]);
                assert(entry_key(s2[y]) == k2);
            }
            assert(entries_map(s2).contains_key(k2));
        }
    });
}

} // verus!
