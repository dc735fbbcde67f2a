//! Registry of syscall arguments that are never mutated.
use vstd::prelude::*;
use crate::hashed::{U32ListMap, u32_list_map_contents};

verus! {

/// Map from syscall number to the indices (0-based) of its arguments that
/// must be left untouched.
pub type SkippedArgsMap = U32ListMap;

/// A registry that can be set once.
pub struct SkippedArgs {
    map: Option<SkippedArgsMap>,
}

impl SkippedArgs {
    /// The registered map, by its contents; `None` until [`set`] succeeds.
    pub closed spec fn registered(&self) -> Option<Map<u32, Seq<u32>>> {
        match self.map {
            Some(m) => Some(u32_list_map_contents(m)),
            None => None,
        }
    }

    /// A registry with nothing set.
    pub fn new() -> (r: Self)
        ensures
            r.registered() == Option::<Map<u32, Seq<u32>>>::None,
    {
        SkippedArgs { map: None }
    }
}

/// The map of `entries` inserted in order: a later entry for a syscall
/// replaces an earlier one.
pub open spec fn entries_map(entries: Seq<(u32, Vec<u32>)>) -> Map<u32, Seq<u32>>
    decreases entries.len(),
{
    if entries.len() == 0 {
        Map::<u32, Seq<u32>>::empty()
    } else {
        entries_map(entries.drop_last()).insert(entries.last().0, entries.last().1@)
    }
}

/// A map of skipped arguments holding `entries` (syscall number, indices of
/// its skipped arguments), a later entry for a syscall replacing an earlier.
pub fn skipped_args_map(entries: &Vec<(u32, Vec<u32>)>) -> (m: SkippedArgsMap)
    ensures
        u32_list_map_contents(m) == entries_map(entries@),
{
    let mut m = U32ListMap::new();
    let mut i: usize = 0;
    assert(entries@.take(0) =~= Seq::<(u32, Vec<u32>)>::empty());
    while i < entries.len()
        invariant
            0 <= i <= entries@.len(),
            u32_list_map_contents(m) == entries_map(entries@.take(i as int)),
        decreases entries@.len() - i,
    {
        let k = entries[i].0;
        let v = entries[i].1.clone();
        m.insert(k, v);
        assert(entries@.take(i + 1).drop_last() =~= entries@.take(i as int));
        i = i + 1;
    }
    assert(entries@.take(entries@.len() as int) =~= entries@);
    m
}

/// Whether `(syscall_no, arg_no)` is skipped under the registered map `m`.
pub open spec fn skipped_in(m: Option<Map<u32, Seq<u32>>>, syscall_no: u32, arg_no: u32) -> bool {
    match m {
        Some(map) => map.contains_key(syscall_no) && map[syscall_no].contains(arg_no),
        None => false,
    }
}

/// Registers `map`, once. A second registration leaves the first in place
/// and hands the new map back.
pub fn set(registry: &mut SkippedArgs, map: SkippedArgsMap) -> (r: Result<(), SkippedArgsMap>)
    ensures
        old(registry).registered() is None ==> (r is Ok && final(registry).registered() == Some(
            u32_list_map_contents(map),
        )),
        old(registry).registered() is Some ==> (r is Err && final(registry).registered() == old(
            registry,
        ).registered()),
        r matches Err(m) ==> u32_list_map_contents(m) == u32_list_map_contents(map),
{
    if registry.map.is_some() {
        Err(map)
    } else {
        registry.map = Some(map);
        Ok(())
    }
}

/// Returns `true` if argument `arg_no` of `syscall_no` is registered as
/// skipped.
pub fn is_skipped(registry: &SkippedArgs, syscall_no: u32, arg_no: u32) -> (b: bool)
    ensures
        b == skipped_in(registry.registered(), syscall_no, arg_no),
{
    match &registry.map {
        None => false,
        Some(m) => match m.get(syscall_no) {
            None => false,
            Some(v) => {
                let mut i: usize = 0;
                #[verifier::loop_isolation(false)]
                while i < v.len()
                    invariant
                        0 <= i <= v.len(),
                        forall|j: int| 0 <= j < i ==> v@[j] != arg_no,
                    decreases v.len() - i,
                {
                    if v[i] == arg_no {
                        assert(v@[i as int] == arg_no);
                        return true;
                    }
                    i = i + 1;
                }
                false
            },
        },
    }
}

} // verus!
