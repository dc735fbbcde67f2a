//! Hash-based collections of the `hashbrown` crate, each held in a struct of
//! this library so that its contents can be named in contracts.
//!
//! Every struct keeps one `hashbrown` collection in a private field. Its
//! contents are named by an uninterpreted spec function; every method states,
//! over that name, what the `hashbrown` method that it calls does to the
//! contents and what it returns. Iteration order of a `hashbrown` collection
//! depends on a per-process random hasher seed, so methods that hand the
//! elements out state only which elements come out, never their order.
use vstd::prelude::*;

verus! {

// ---------------------------------------------------------------------------
// HashSet<u64>

/// A `hashbrown::HashSet<u64>`.
#[verifier::external_body]
#[derive(Debug)]
pub struct U64Set {
    set: hashbrown::HashSet<u64>,
}

/// The elements of a [`U64Set`].
pub uninterp spec fn u64_set_contents(s: U64Set) -> Set<u64>;

impl U64Set {
    /// `hashbrown::HashSet::new`: an empty set.
    #[verifier::external_body]
    pub fn new() -> (s: Self)
        ensures
            u64_set_contents(s) == Set::<u64>::empty(),
    {
        U64Set { set: hashbrown::HashSet::new() }
    }

    /// `hashbrown::HashSet::insert`: adds `v`; true when `v` was absent.
    #[verifier::external_body]
    pub fn insert(&mut self, v: u64) -> (fresh: bool)
        ensures
            u64_set_contents(*final(self)) == u64_set_contents(*old(self)).insert(v),
            fresh == !u64_set_contents(*old(self)).contains(v),
    {
        self.set.insert(v)
    }

    /// `hashbrown::HashSet::contains`: whether `v` is an element.
    #[verifier::external_body]
    pub fn contains(&self, v: u64) -> (b: bool)
        ensures
            b == u64_set_contents(*self).contains(v),
    {
        self.set.contains(&v)
    }
}

// ---------------------------------------------------------------------------
// HashSet<u32>

/// A `hashbrown::HashSet<u32>`.
#[verifier::external_body]
#[derive(Debug)]
pub struct U32Set {
    set: hashbrown::HashSet<u32>,
}

/// The elements of a [`U32Set`].
pub uninterp spec fn u32_set_contents(s: U32Set) -> Set<u32>;

impl U32Set {
    /// `hashbrown::HashSet::new`: an empty set.
    #[verifier::external_body]
    pub fn new() -> (s: Self)
        ensures
            u32_set_contents(s) == Set::<u32>::empty(),
    {
        U32Set { set: hashbrown::HashSet::new() }
    }

    /// `hashbrown::HashSet::insert`: adds `v`; true when `v` was absent.
    #[verifier::external_body]
    pub fn insert(&mut self, v: u32) -> (fresh: bool)
        ensures
            u32_set_contents(*final(self)) == u32_set_contents(*old(self)).insert(v),
            fresh == !u32_set_contents(*old(self)).contains(v),
    {
        self.set.insert(v)
    }

    /// `hashbrown::HashSet::contains`: whether `v` is an element.
    #[verifier::external_body]
    pub fn contains(&self, v: u32) -> (b: bool)
        ensures
            b == u32_set_contents(*self).contains(v),
    {
        self.set.contains(&v)
    }

    /// `hashbrown::HashSet::clear`: removes every element.
    #[verifier::external_body]
    pub fn clear(&mut self)
        ensures
            u32_set_contents(*final(self)) == Set::<u32>::empty(),
    {
        self.set.clear()
    }

    /// `hashbrown::HashSet::is_empty`.
    #[verifier::external_body]
    pub fn is_empty(&self) -> (b: bool)
        ensures
            b == (u32_set_contents(*self) == Set::<u32>::empty()),
    {
        self.set.is_empty()
    }

    /// `hashbrown::HashSet::clone`: a set with the same elements.
    #[verifier::external_body]
    pub fn duplicate(&self) -> (c: Self)
        ensures
            u32_set_contents(c) == u32_set_contents(*self),
    {
        U32Set { set: self.set.clone() }
    }

    /// `hashbrown::HashSet::iter`, collected: every element once, in the
    /// set's (unspecified) iteration order.
    #[verifier::external_body]
    pub fn to_vec(&self) -> (v: Vec<u32>)
        ensures
            v@.to_set() == u32_set_contents(*self),
            v@.no_duplicates(),
    {
        self.set.iter().copied().collect()
    }
}

// ---------------------------------------------------------------------------
// HashSet<(u32, usize, u32, usize)>

/// An insufficient-bytes indicator: syscall, call offset, argument index and
/// the length that was asked for.
pub type BytesIndicator = (u32, usize, u32, usize);

/// A `hashbrown::HashSet<(u32, usize, u32, usize)>`.
#[verifier::external_body]
#[derive(Debug)]
pub struct IndicatorSet {
    set: hashbrown::HashSet<BytesIndicator>,
}

/// The elements of an [`IndicatorSet`].
pub uninterp spec fn indicator_set_contents(s: IndicatorSet) -> Set<BytesIndicator>;

impl IndicatorSet {
    /// `hashbrown::HashSet::new`: an empty set.
    #[verifier::external_body]
    pub fn new() -> (s: Self)
        ensures
            indicator_set_contents(s) == Set::<BytesIndicator>::empty(),
    {
        IndicatorSet { set: hashbrown::HashSet::new() }
    }

    /// `hashbrown::HashSet::insert`: adds `v`; true when `v` was absent.
    #[verifier::external_body]
    pub fn insert(&mut self, v: BytesIndicator) -> (fresh: bool)
        ensures
            indicator_set_contents(*final(self)) == indicator_set_contents(*old(self)).insert(v),
            fresh == !indicator_set_contents(*old(self)).contains(v),
    {
        self.set.insert(v)
    }

    /// `hashbrown::HashSet::clear`: removes every element.
    #[verifier::external_body]
    pub fn clear(&mut self)
        ensures
            indicator_set_contents(*final(self)) == Set::<BytesIndicator>::empty(),
    {
        self.set.clear()
    }

    /// `hashbrown::HashSet::is_empty`.
    #[verifier::external_body]
    pub fn is_empty(&self) -> (b: bool)
        ensures
            b == (indicator_set_contents(*self) == Set::<BytesIndicator>::empty()),
    {
        self.set.is_empty()
    }

    /// `hashbrown::HashSet::clone`: a set with the same elements.
    #[verifier::external_body]
    pub fn duplicate(&self) -> (c: Self)
        ensures
            indicator_set_contents(c) == indicator_set_contents(*self),
    {
        IndicatorSet { set: self.set.clone() }
    }

    /// `hashbrown::HashSet::iter`, collected: every element once, in the
    /// set's (unspecified) iteration order.
    #[verifier::external_body]
    pub fn to_vec(&self) -> (v: Vec<BytesIndicator>)
        ensures
            v@.to_set() == indicator_set_contents(*self),
            v@.no_duplicates(),
    {
        self.set.iter().copied().collect()
    }
}

// ---------------------------------------------------------------------------
// HashMap<u32, usize>

/// A `hashbrown::HashMap<u32, usize>`.
#[verifier::external_body]
#[derive(Debug)]
pub struct U32UsizeMap {
    map: hashbrown::HashMap<u32, usize>,
}

/// The entries of a [`U32UsizeMap`].
pub uninterp spec fn u32_usize_map_contents(m: U32UsizeMap) -> Map<u32, usize>;

impl U32UsizeMap {
    /// `hashbrown::HashMap::clone`: a map with the same entries.
    #[verifier::external_body]
    pub fn duplicate(&self) -> (c: Self)
        ensures
            u32_usize_map_contents(c) == u32_usize_map_contents(*self),
    {
        U32UsizeMap { map: self.map.clone() }
    }

    /// `hashbrown::HashMap::new`: an empty map.
    #[verifier::external_body]
    pub fn new() -> (m: Self)
        ensures
            (u32_usize_map_contents(m) == Map::<u32, usize>::empty()),
    {
        U32UsizeMap { map: hashbrown::HashMap::new() }
    }

    /// `hashbrown::HashMap::get`, copied out.
    #[verifier::external_body]
    pub fn get(&self, k: u32) -> (r: Option<usize>)
        ensures
            r == (if u32_usize_map_contents(*self).contains_key(k) {
                Some(u32_usize_map_contents(*self)[k])
            } else {
                None
            }),
    {
        self.map.get(&k).copied()
    }

    /// `hashbrown::HashMap::insert`: maps `k` to `v`, dropping any earlier value.
    #[verifier::external_body]
    pub fn insert(&mut self, k: u32, v: usize)
        ensures
            u32_usize_map_contents(*final(self)) == u32_usize_map_contents(*old(self)).insert(k, v),
    {
        self.map.insert(k, v);
    }

    /// `hashbrown::HashMap::clear`: removes every entry.
    #[verifier::external_body]
    pub fn clear(&mut self)
        ensures
            (u32_usize_map_contents(*final(self)) == Map::<u32, usize>::empty()),
    {
        self.map.clear()
    }
}

// ---------------------------------------------------------------------------
// HashMap<(u32, u32), usize>

/// A `hashbrown::HashMap<(u32, u32), usize>`.
#[verifier::external_body]
#[derive(Debug)]
pub struct CursorMap {
    map: hashbrown::HashMap<(u32, u32), usize>,
}

/// The entries of a [`CursorMap`].
pub uninterp spec fn cursor_map_contents(m: CursorMap) -> Map<(u32, u32), usize>;

/// Whether the entry keyed by `key` survives resetting the cursors of
/// `syscall_no`.
pub fn keeps_cursor(key: &(u32, u32), syscall_no: u32) -> (b: bool)
    ensures
        b == (key.0 != syscall_no),
{
    key.0 != syscall_no
}

impl CursorMap {
    /// `hashbrown::HashMap::clone`: a map with the same entries.
    #[verifier::external_body]
    pub fn duplicate(&self) -> (c: Self)
        ensures
            cursor_map_contents(c) == cursor_map_contents(*self),
    {
        CursorMap { map: self.map.clone() }
    }

    /// `hashbrown::HashMap::new`: an empty map.
    #[verifier::external_body]
    pub fn new() -> (m: Self)
        ensures
            (cursor_map_contents(m) == Map::<(u32, u32), usize>::empty()),
    {
        CursorMap { map: hashbrown::HashMap::new() }
    }

    /// `hashbrown::HashMap::get`, copied out.
    #[verifier::external_body]
    pub fn get(&self, k: (u32, u32)) -> (r: Option<usize>)
        ensures
            r == (if cursor_map_contents(*self).contains_key(k) {
                Some(cursor_map_contents(*self)[k])
            } else {
                None
            }),
    {
        self.map.get(&k).copied()
    }

    /// `hashbrown::HashMap::insert`: maps `k` to `v`, dropping any earlier value.
    #[verifier::external_body]
    pub fn insert(&mut self, k: (u32, u32), v: usize)
        ensures
            cursor_map_contents(*final(self)) == cursor_map_contents(*old(self)).insert(k, v),
    {
        self.map.insert(k, v);
    }

    /// `hashbrown::HashMap::clear`: removes every entry.
    #[verifier::external_body]
    pub fn clear(&mut self)
        ensures
            (cursor_map_contents(*final(self)) == Map::<(u32, u32), usize>::empty()),
    {
        self.map.clear()
    }

    /// `hashbrown::HashMap::retain` with [`keeps_cursor`]: drops every entry
    /// whose key names `syscall_no`, keeping the others unchanged.
    #[verifier::external_body]
    pub fn remove_syscall(&mut self, syscall_no: u32)
        ensures
            cursor_map_contents(*final(self)) == cursor_map_contents(*old(self)).restrict(
                Set::new(|k: (u32, u32)| k.0 != syscall_no),
            ),
    {
        self.map.retain(|k, _| keeps_cursor(k, syscall_no))
    }
}

// ---------------------------------------------------------------------------
// HashMap<u32, Vec<u32>>

/// A `hashbrown::HashMap<u32, Vec<u32>>`.
#[verifier::external_body]
#[derive(Debug)]
pub struct U32ListMap {
    map: hashbrown::HashMap<u32, Vec<u32>>,
}

/// The entries of a [`U32ListMap`], each list taken by its view.
pub uninterp spec fn u32_list_map_contents(m: U32ListMap) -> Map<u32, Seq<u32>>;

impl U32ListMap {
    /// `hashbrown::HashMap::new`: an empty map.
    #[verifier::external_body]
    pub fn new() -> (m: Self)
        ensures
            (u32_list_map_contents(m) == Map::<u32, Seq<u32>>::empty()),
    {
        U32ListMap { map: hashbrown::HashMap::new() }
    }

    /// `hashbrown::HashMap::insert`: maps `k` to `v`, dropping any earlier value.
    #[verifier::external_body]
    pub fn insert(&mut self, k: u32, v: Vec<u32>)
        ensures
            u32_list_map_contents(*final(self)) == u32_list_map_contents(*old(self)).insert(k, v@),
    {
        self.map.insert(k, v);
    }

    /// `hashbrown::HashMap::get`.
    #[verifier::external_body]
    pub fn get(&self, k: u32) -> (r: Option<&Vec<u32>>)
        ensures
            match r {
                Some(v) => u32_list_map_contents(*self).contains_key(k)
                    && v@ == u32_list_map_contents(*self)[k],
                None => !u32_list_map_contents(*self).contains_key(k),
            },
    {
        self.map.get(&k)
    }
}

} // verus!
