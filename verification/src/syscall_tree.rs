//! Prefix tree of syscall sequences, used to detect syscall sequences that
//! have never been executed before.
use vstd::prelude::*;
use crate::hashed::{U32UsizeMap, u32_usize_map_contents};

verus! {

/// Identifier of a syscall (its number).
pub type SyscallID = u32;

/// The set of the first `n` prefixes of `seq`: `seq.take(0) ..= seq.take(n)`.
pub open spec fn prefixes_upto(seq: Seq<SyscallID>, n: int) -> Set<Seq<SyscallID>> {
    Set::new(|p: Seq<SyscallID>| exists|k: int| 0 <= k <= n && p == seq.take(k))
}

/// Whether some non-empty prefix of `seq` is missing from `known`.
pub open spec fn has_new_prefix(known: Set<Seq<SyscallID>>, seq: Seq<SyscallID>) -> bool {
    exists|k: int| 1 <= k <= seq.len() && !known.contains(#[trigger] seq.take(k))
}

/// A node of the tree: its children, by syscall, as indices of child nodes.
pub type SyscallNode = U32UsizeMap;

/// A prefix tree of syscall sequences. Each node stores its children as a map
/// from syscall to the index of the child node; node 0 is the root.
pub struct SyscallTree {
    nodes: Vec<SyscallNode>,
    /// Every recorded path (the empty path included) and the node it leads to.
    paths: Ghost<Map<Seq<SyscallID>, int>>,
}

impl SyscallTree {
    /// The children of node `i`.
    pub closed spec fn children(&self, i: int) -> Map<SyscallID, usize> {
        u32_usize_map_contents(self.nodes@[i])
    }

    /// The recorded sequences: every prefix of every sequence recorded so
    /// far, the empty sequence included.
    pub closed spec fn recorded(&self) -> Set<Seq<SyscallID>> {
        self.paths@.dom()
    }

    /// The internal invariant linking the nodes to the recorded paths.
    pub closed spec fn wf(&self) -> bool {
        let paths = self.paths@;
        &&& self.nodes.len() >= 1
        &&& paths.contains_key(Seq::<SyscallID>::empty())
        &&& paths[Seq::<SyscallID>::empty()] == 0
        &&& forall|p: Seq<SyscallID>| #[trigger]
            paths.contains_key(p) ==> 0 <= paths[p] < self.nodes.len()
        &&& forall|p: Seq<SyscallID>, q: Seq<SyscallID>|
            #![trigger paths[p], paths[q]]
            paths.contains_key(p) && paths.contains_key(q) && paths[p] == paths[q] ==> p == q
        &&& forall|p: Seq<SyscallID>, c: SyscallID|
            #![trigger self.children(paths[p]).contains_key(c)]
            paths.contains_key(p) && self.children(paths[p]).contains_key(c) ==> paths.contains_key(
                p.push(c),
            )
        &&& forall|p: Seq<SyscallID>, c: SyscallID| #[trigger]
            paths.contains_key(p.push(c)) ==> {
                &&& paths.contains_key(p)
                &&& self.children(paths[p]).contains_key(c)
                &&& self.children(paths[p])[c] == paths[p.push(c)]
            }
    }

    /// A tree that holds only the empty sequence.
    pub fn new() -> (t: Self)
        ensures
            t.wf(),
            t.recorded() == set![Seq::<SyscallID>::empty()],
    {
        let mut nodes: Vec<U32UsizeMap> = Vec::new();
        nodes.push(U32UsizeMap::new());
        let t = SyscallTree {
            nodes,
            paths: Ghost(Map::<Seq<SyscallID>, int>::empty().insert(Seq::<SyscallID>::empty(), 0)),
        };
        proof {
            assert forall|p: Seq<SyscallID>, c: SyscallID| #[trigger]
                t.paths@.contains_key(p.push(c)) implies false by {
                assert(p.push(c).len() > 0);
            }
            assert(t.recorded() =~= set![Seq::<SyscallID>::empty()]);
        }
        t
    }

    /// Records `sequence` and each of its prefixes. Returns true when some
    /// non-empty prefix had not been recorded before; an empty sequence
    /// records nothing and returns false.
    pub fn record_sequence(&mut self, sequence: &[SyscallID]) -> (is_new: bool)
        requires
            old(self).wf(),
        ensures
            final(self).wf(),
            final(self).recorded() == old(self).recorded().union(
                prefixes_upto(sequence@, sequence@.len() as int),
            ),
            is_new == has_new_prefix(old(self).recorded(), sequence@),
    {
        let ghost old_dom = self.paths@.dom();
        if sequence.len() == 0 {
            proof {
                assert(prefixes_upto(sequence@, 0) =~= set![Seq::<SyscallID>::empty()]) by {
                    assert forall|p: Seq<SyscallID>| prefixes_upto(sequence@, 0).contains(p) implies p
                        == Seq::<SyscallID>::empty() by {
                        let k = choose|k: int| 0 <= k <= 0 && p == sequence@.take(k);
                    }
                    assert(sequence@.take(0) =~= Seq::<SyscallID>::empty());
                }
                assert(self.recorded() =~= old_dom.union(prefixes_upto(sequence@, 0)));
            }
            return false;
        }
        let mut cur: usize = 0;
        let mut is_new = false;
        let mut i: usize = 0;
        proof {
            assert(sequence@.take(0) =~= Seq::<SyscallID>::empty());
            assert(prefixes_upto(sequence@, 0) =~= set![Seq::<SyscallID>::empty()]) by {
                assert forall|p: Seq<SyscallID>| prefixes_upto(sequence@, 0).contains(p) implies p
                    == Seq::<SyscallID>::empty() by {
                    let k = choose|k: int| 0 <= k <= 0 && p == sequence@.take(k);
                }
            }
            assert(self.paths@.dom() =~= old_dom.union(prefixes_upto(sequence@, 0)));
        }
        while i < sequence.len()
            invariant
                self.wf(),
                0 <= i <= sequence@.len(),
                old_dom.contains(Seq::<SyscallID>::empty()),
                self.paths@.dom() == old_dom.union(prefixes_upto(sequence@, i as int)),
                self.paths@.contains_key(sequence@.take(i as int)),
                self.paths@[sequence@.take(i as int)] == cur,
                is_new == exists|k: int|
                    1 <= k <= i && !old_dom.contains(#[trigger] sequence@.take(k)),
            decreases sequence@.len() - i,
        {
            let c = sequence[i];
            let ghost prefix = sequence@.take(i as int);
            let ghost next = sequence@.take(i + 1);
            assert(next =~= prefix.push(c));
            let child = self.nodes[cur].get(c);
            match child {
                Some(idx) => {
                    proof {
                        assert(self.children(self.paths@[prefix]).contains_key(c));
                        assert(self.paths@.contains_key(prefix.push(c)));
                        // `next` is longer than every prefix up to `i`, so it was known before
                        if !old_dom.contains(next) {
                            assert(prefixes_upto(sequence@, i as int).contains(next));
                            let k = choose|k: int| 0 <= k <= i && next == sequence@.take(k);
                            assert(next.len() == i + 1);
                        }
                        assert(prefixes_upto(sequence@, i + 1) =~= prefixes_upto(
                            sequence@,
                            i as int,
                        ).insert(next)) by {
                            assert forall|p: Seq<SyscallID>|
                                #[trigger] prefixes_upto(sequence@, i + 1).contains(p) implies
                                prefixes_upto(sequence@, i as int).insert(next).contains(p) by {
                                let k = choose|k: int| 0 <= k <= i + 1 && p == sequence@.take(k);
                                if k <= i {
                                    assert(prefixes_upto(sequence@, i as int).contains(p));
                                }
                            }
                            assert forall|p: Seq<SyscallID>|
                                #[trigger] prefixes_upto(sequence@, i as int).insert(next).contains(p)
                                implies prefixes_upto(sequence@, i + 1).contains(p) by {
                                if p != next {
                                    let k = choose|k: int| 0 <= k <= i && p == sequence@.take(k);
                                }
                            }
                        }
                        assert(self.paths@.dom() =~= old_dom.union(
                            prefixes_upto(sequence@, i + 1),
                        ));
                        assert forall|k: int| 1 <= k <= i + 1 && !old_dom.contains(
                            #[trigger] sequence@.take(k),
                        ) implies k <= i by {}
                    }
                    cur = idx;
                },
                None => {
                    let n = self.nodes.len();
                    let ghost old_paths = self.paths@;
                    let ghost old_nodes = self.nodes@;
                    proof {
                        assert forall|p: Seq<SyscallID>, cc: SyscallID|
                            old_paths.contains_key(p) && #[trigger] u32_usize_map_contents(
                                old_nodes[old_paths[p]],
                            ).contains_key(cc) implies old_paths.contains_key(p.push(cc)) by {
                            assert(self.children(old_paths[p]).contains_key(cc));
                        }
                        assert(!old_paths.contains_key(prefix.push(c)));
                        assert(!old_dom.contains(next));
                    }
                    let mut node = U32UsizeMap::new();
                    std::mem::swap(&mut node, &mut self.nodes[cur]);
                    node.insert(c, n);
                    std::mem::swap(&mut node, &mut self.nodes[cur]);
                    self.nodes.push(U32UsizeMap::new());
                    proof {
                        self.paths@ = old_paths.insert(next, n as int);
                    }
                    proof {
                        let paths = self.paths@;
                        assert forall|j: int| 0 <= j < old_nodes.len() && j != cur implies
                            #[trigger] self.children(j) == u32_usize_map_contents(old_nodes[j]) by {}
                        assert(self.children(cur as int) == u32_usize_map_contents(
                            old_nodes[cur as int],
                        ).insert(c, n));
                        assert(self.children(n as int) == Map::<u32, usize>::empty());
                        assert forall|p: Seq<SyscallID>| #[trigger]
                            paths.contains_key(p) implies 0 <= paths[p] < self.nodes.len() by {}
                        assert forall|p: Seq<SyscallID>, q: Seq<SyscallID>|
                            paths.contains_key(p) && paths.contains_key(q) && #[trigger] paths[p]
                                == #[trigger] paths[q] implies p == q by {
                            if p != next && q != next {
                                assert(old_paths[p] == old_paths[q]);
                            }
                        }
                        assert forall|p: Seq<SyscallID>, cc: SyscallID|
                            paths.contains_key(p) && #[trigger] self.children(paths[p]).contains_key(
                                cc,
                            ) implies paths.contains_key(p.push(cc)) by {
                            if p == next {
                                assert(false);
                            } else if paths[p] == cur {
                                assert(p == prefix);
                                if cc != c {
                                    assert(u32_usize_map_contents(
                                        old_nodes[old_paths[p]],
                                    ).contains_key(cc));
                                }
                            } else {
                                assert(u32_usize_map_contents(
                                    old_nodes[old_paths[p]],
                                ).contains_key(cc));
                            }
                        }
                        assert forall|p: Seq<SyscallID>, cc: SyscallID| #[trigger]
                            paths.contains_key(p.push(cc)) implies {
                                &&& paths.contains_key(p)
                                &&& self.children(paths[p]).contains_key(cc)
                                &&& self.children(paths[p])[cc] == paths[p.push(cc)]
                            } by {
                            if p.push(cc) == next {
                                assert(p =~= prefix) by {
                                    assert(p =~= p.push(cc).drop_last());
                                    assert(prefix =~= next.drop_last());
                                }
                                assert(cc == c) by {
                                    assert(p.push(cc).last() == next.last());
                                }
                            } else {
                                assert(old_paths.contains_key(p.push(cc)));
                                assert(old_paths.contains_key(p));
                                if p == next {
                                    assert(false);
                                }
                                if old_paths[p] == cur {
                                    assert(p == prefix);
                                    if cc == c {
                                        assert(p.push(cc) == next);
                                    }
                                }
                            }
                        }
                        assert(prefixes_upto(sequence@, i + 1) =~= prefixes_upto(
                            sequence@,
                            i as int,
                        ).insert(next)) by {
                            assert forall|p: Seq<SyscallID>|
                                #[trigger] prefixes_upto(sequence@, i + 1).contains(p) implies
                                prefixes_upto(sequence@, i as int).insert(next).contains(p) by {
                                let k = choose|k: int| 0 <= k <= i + 1 && p == sequence@.take(k);
                                if k <= i {
                                    assert(prefixes_upto(sequence@, i as int).contains(p));
                                }
                            }
                            assert forall|p: Seq<SyscallID>|
                                #[trigger] prefixes_upto(sequence@, i as int).insert(next).contains(p)
                                implies prefixes_upto(sequence@, i + 1).contains(p) by {
                                if p != next {
                                    let k = choose|k: int| 0 <= k <= i && p == sequence@.take(k);
                                }
                            }
                        }
                        assert(self.paths@.dom() =~= old_dom.union(
                            prefixes_upto(sequence@, i + 1),
                        ));
                    }
                    is_new = true;
                    cur = n;
                },
            }
            i = i + 1;
        }
        proof {
            assert(sequence@.take(sequence@.len() as int) =~= sequence@);
        }
        is_new
    }
}

/// Recording a sequence makes it known: recording the same sequence again
/// finds no new prefix (so it does not start another capture).
pub proof fn law_recorded_sequence_is_not_new(recorded: Set<Seq<SyscallID>>, seq: Seq<SyscallID>)
    ensures
        !has_new_prefix(recorded.union(prefixes_upto(seq, seq.len() as int)), seq),
{
    assert forall|k: int| 1 <= k <= seq.len() implies recorded.union(
        prefixes_upto(seq, seq.len() as int),
    ).contains(#[trigger] seq.take(k)) by {
        assert(prefixes_upto(seq, seq.len() as int).contains(seq.take(k)));
    }
}

/// After a sequence is recorded, none of its prefixes is new either.
pub proof fn law_prefix_of_recorded_is_not_new(
    recorded: Set<Seq<SyscallID>>,
    seq: Seq<SyscallID>,
    n: int,
)
    requires
        0 <= n <= seq.len(),
    ensures
        !has_new_prefix(recorded.union(prefixes_upto(seq, seq.len() as int)), seq.take(n)),
{
    assert forall|k: int| 1 <= k <= seq.take(n).len() implies recorded.union(
        prefixes_upto(seq, seq.len() as int),
    ).contains(#[trigger] seq.take(n).take(k)) by {
        assert(seq.take(n).take(k) =~= seq.take(k));
        assert(prefixes_upto(seq, seq.len() as int).contains(seq.take(k)));
    }
}

/// What a new tree has recorded after the sequences of `history` were
/// recorded into it, in order (see [`SyscallTree::new`] and
/// [`SyscallTree::record_sequence`]).
pub open spec fn recorded_after(history: Seq<Seq<SyscallID>>) -> Set<Seq<SyscallID>>
    decreases history.len(),
{
    if history.len() == 0 {
        set![Seq::<SyscallID>::empty()]
    } else {
        recorded_after(history.drop_last()).union(
            prefixes_upto(history.last(), history.last().len() as int),
        )
    }
}

/// What a tree has recorded is the empty sequence and every prefix of every
/// sequence recorded so far, and nothing else.
pub proof fn lemma_recorded_after(history: Seq<Seq<SyscallID>>, p: Seq<SyscallID>)
    ensures
        recorded_after(history).contains(p) <==> (p.len() == 0 || exists|j: int|
            0 <= j < history.len() && p.is_prefix_of(#[trigger] history[j])),
    decreases history.len(),
{
    if history.len() == 0 {
        if p.len() == 0 {
            assert(p =~= Seq::<SyscallID>::empty());
        }
    } else {
        let prev = history.drop_last();
        let last = history.last();
        lemma_recorded_after(prev, p);
        if prefixes_upto(last, last.len() as int).contains(p) {
            let k = choose|k: int| 0 <= k <= last.len() && p == last.take(k);
            assert(p =~= last.subrange(0, p.len() as int));
            assert(p.is_prefix_of(history[history.len() - 1]));
        }
        if p.is_prefix_of(last) {
            assert(p =~= last.take(p.len() as int));
            assert(prefixes_upto(last, last.len() as int).contains(p));
        }
        if exists|j: int| 0 <= j < prev.len() && p.is_prefix_of(#[trigger] prev[j]) {
            let j = choose|j: int| 0 <= j < prev.len() && p.is_prefix_of(#[trigger] prev[j]);
            assert(history[j] == prev[j]);
        }
        if exists|j: int| 0 <= j < history.len() && p.is_prefix_of(#[trigger] history[j]) {
            let j = choose|j: int| 0 <= j < history.len() && p.is_prefix_of(#[trigger] history[j]);
            if j < prev.len() {
                assert(history[j] == prev[j]);
            }
        }
    }
}

/// Whether recording a sequence reports it as new depends only on what was
/// recorded before: a sequence is new exactly when it is not empty and is
/// not a prefix of any sequence recorded earlier.
pub proof fn law_new_exactly_when_not_a_recorded_prefix(
    history: Seq<Seq<SyscallID>>,
    seq: Seq<SyscallID>,
)
    ensures
        has_new_prefix(recorded_after(history), seq) == (seq.len() > 0 && !exists|j: int|
            0 <= j < history.len() && seq.is_prefix_of(#[trigger] history[j])),
{
    if seq.len() > 0 {
        if exists|j: int| 0 <= j < history.len() && seq.is_prefix_of(#[trigger] history[j]) {
            let j = choose|j: int| 0 <= j < history.len() && seq.is_prefix_of(#[trigger] history[j]);
            assert forall|k: int| 1 <= k <= seq.len() implies recorded_after(history).contains(
                #[trigger] seq.take(k),
            ) by {
                lemma_recorded_after(history, seq.take(k));
                assert(seq.take(k) =~= history[j].subrange(0, k));
                assert(seq.take(k).is_prefix_of(history[j]));
            }
        } else {
            lemma_recorded_after(history, seq);
            assert(seq.take(seq.len() as int) =~= seq);
            assert(!recorded_after(history).contains(seq.take(seq.len() as int)));
        }
    }
}

} // verus!
