//! An ordered list of calls of one syscall.
use vstd::prelude::*;

verus! {

/// Number of arguments of a syscall.
pub const NUM_ARGS: usize = 6;

/// The argument bytes of one call of a syscall.
pub type Call = [Vec<u8>; NUM_ARGS];

/// The bytes of each argument of a call.
pub open spec fn call_view(c: Call) -> Seq<Seq<u8>> {
    Seq::new(NUM_ARGS as nat, |i: int| c@[i]@)
}

/// A call all of whose arguments are empty.
pub open spec fn empty_call_view() -> Seq<Seq<u8>> {
    Seq::new(NUM_ARGS as nat, |i: int| Seq::<u8>::empty())
}

/// A call with six empty arguments.
pub fn empty_call() -> (c: Call)
    ensures
        call_view(c) == empty_call_view(),
{
    let c: Call = [Vec::new(), Vec::new(), Vec::new(), Vec::new(), Vec::new(), Vec::new()];
    assert(call_view(c) =~= empty_call_view());
    c
}

/// A copy of a byte vector.
pub fn clone_bytes(b: &Vec<u8>) -> (r: Vec<u8>)
    ensures
        r@ == b@,
{
    let mut r: Vec<u8> = Vec::new();
    let mut i: usize = 0;
    while i < b.len()
        invariant
            0 <= i <= b.len(),
            r@ == b@.subrange(0, i as int),
        decreases b.len() - i,
    {
        r.push(b[i]);
        i = i + 1;
        assert(r@ =~= b@.subrange(0, i as int));
    }
    assert(b@.subrange(0, b.len() as int) =~= b@);
    r
}

/// A copy of a call.
pub fn clone_call(c: &Call) -> (r: Call)
    ensures
        call_view(r) == call_view(*c),
{
    let r: Call = [
        clone_bytes(&c[0]),
        clone_bytes(&c[1]),
        clone_bytes(&c[2]),
        clone_bytes(&c[3]),
        clone_bytes(&c[4]),
        clone_bytes(&c[5]),
    ];
    assert(call_view(r) =~= call_view(*c));
    r
}

/// The views of a sequence of calls.
pub open spec fn calls_view(parts: Seq<Call>) -> Seq<Seq<Seq<u8>>> {
    Seq::new(parts.len(), |i: int| call_view(parts[i]))
}

/// Whether `a` and `b` hold the same bytes.
pub fn bytes_eq(a: &Vec<u8>, b: &Vec<u8>) -> (r: bool)
    ensures
        r == (a@ == b@),
{
    if a.len() != b.len() {
        return false;
    }
    let mut i: usize = 0;
    while i < a.len()
        invariant
            a@.len() == b@.len(),
            0 <= i <= a@.len(),
            forall|j: int| 0 <= j < i ==> a@[j] == b@[j],
        decreases a@.len() - i,
    {
        if a[i] != b[i] {
            return false;
        }
        i = i + 1;
    }
    assert(a@ =~= b@);
    true
}

/// The calls of one syscall, in execution order.
#[derive(Debug, Clone)]
pub struct CallsInput {
    parts: Vec<Call>,
}

impl CallsInput {
    /// The argument bytes of every call, in order.
    pub closed spec fn calls(&self) -> Seq<Seq<Seq<u8>>> {
        calls_view(self.parts@)
    }
}

impl View for CallsInput {
    type V = Seq<Seq<Seq<u8>>>;

    open spec fn view(&self) -> Seq<Seq<Seq<u8>>> {
        self.calls()
    }
}

/// Every call of a list has all [`NUM_ARGS`] arguments.
pub proof fn lemma_calls_have_all_args(c: CallsInput, i: int)
    requires
        0 <= i < c@.len(),
    ensures
        c@[i].len() == NUM_ARGS,
{
}

impl CallsInput {
    /// A list of the given calls.
    pub fn new(parts: Vec<Call>) -> (r: Self)
        ensures
            r@ == calls_view(parts@),
    {
        CallsInput { parts }
    }

    /// An empty list.
    pub fn empty() -> (r: Self)
        ensures
            r@ == Seq::<Seq<Seq<u8>>>::empty(),
    {
        let r = CallsInput { parts: Vec::new() };
        assert(r@ =~= Seq::<Seq<Seq<u8>>>::empty());
        r
    }

    /// Number of calls.
    pub fn len(&self) -> (n: usize)
        ensures
            n == self@.len(),
    {
        self.parts.len()
    }

    /// Whether there is no call.
    pub fn is_empty(&self) -> (b: bool)
        ensures
            b == (self@.len() == 0),
    {
        self.parts.len() == 0
    }

    /// The call at `idx`, if any.
    pub fn part_at_index(&self, idx: usize) -> (r: Option<&Call>)
        ensures
            match r {
                Some(c) => idx < self@.len() && call_view(*c) == self@[idx as int],
                None => idx >= self@.len(),
            },
    {
        if idx < self.parts.len() {
            Some(&self.parts[idx])
        } else {
            None
        }
    }

    /// The bytes of argument `arg` of call `idx`.
    pub fn arg(&self, idx: usize, arg: usize) -> (b: &Vec<u8>)
        requires
            idx < self@.len(),
            arg < NUM_ARGS,
        ensures
            b@ == self@[idx as int][arg as int],
    {
        &self.parts[idx][arg]
    }

    /// Whether both lists hold the same calls with the same argument bytes.
    pub fn same_calls(&self, other: &CallsInput) -> (b: bool)
        ensures
            b == (self@ == other@),
    {
        if self.len() != other.len() {
            return false;
        }
        let mut i: usize = 0;
        while i < self.len()
            invariant
                self@.len() == other@.len(),
                0 <= i <= self@.len(),
                forall|j: int| 0 <= j < i ==> #[trigger] self@[j] == other@[j],
            decreases self@.len() - i,
        {
            let mut a: usize = 0;
            while a < NUM_ARGS
                invariant
                    i < self@.len(),
                    self@.len() == other@.len(),
                    0 <= a <= NUM_ARGS,
                    forall|k: int| 0 <= k < a ==> #[trigger] self@[i as int][k] == other@[i as int][k],
                decreases NUM_ARGS - a,
            {
                if !bytes_eq(self.arg(i, a), other.arg(i, a)) {
                    return false;
                }
                a = a + 1;
            }
            assert(self@[i as int] =~= other@[i as int]);
            i = i + 1;
        }
        assert(self@ =~= other@);
        true
    }

    /// A copy of the call at `idx`.
    pub fn clone_part(&self, idx: usize) -> (c: Call)
        requires
            idx < self@.len(),
        ensures
            call_view(c) == self@[idx as int],
    {
        clone_call(&self.parts[idx])
    }

    /// A deep copy of the whole list.
    pub fn duplicate(&self) -> (r: Self)
        ensures
            r@ == self@,
    {
        let mut parts: Vec<Call> = Vec::new();
        let mut i: usize = 0;
        while i < self.parts.len()
            invariant
                0 <= i <= self.parts.len(),
                self@ == calls_view(self.parts@),
                self@.len() == self.parts.len(),
                calls_view(parts@) == self@.subrange(0, i as int),
                parts@.len() == i,
            decreases self.parts.len() - i,
        {
            let c = clone_call(&self.parts[i]);
            let ghost before = parts@;
            parts.push(c);
            proof {
                assert(parts@ == before.push(c));
                assert(self@[i as int] == call_view(self.parts@[i as int]));
                assert forall|x: int| 0 <= x <= i implies #[trigger] calls_view(parts@)[x]
                    == self@.subrange(0, i + 1)[x] by {
                    if x < i {
                        assert(calls_view(before)[x] == self@.subrange(0, i as int)[x]);
                    }
                }
            }
            i = i + 1;
            assert(calls_view(parts@) =~= self@.subrange(0, i as int));
        }
        assert(self@.subrange(0, self.parts.len() as int) =~= self@);
        CallsInput { parts }
    }

    /// Appends a call at the end.
    pub fn append_part(&mut self, call: Call)
        ensures
            final(self)@ == old(self)@.push(call_view(call)),
    {
        self.parts.push(call);
        assert(self@ =~= old(self)@.push(call_view(call)));
    }

    /// Inserts a call before position `idx` (at the end when `idx == len`).
    pub fn insert_part(&mut self, idx: usize, call: Call)
        requires
            idx <= old(self)@.len(),
        ensures
            final(self)@ == old(self)@.insert(idx as int, call_view(call)),
    {
        self.parts.insert(idx, call);
        assert(self@ =~= old(self)@.insert(idx as int, call_view(call)));
    }

    /// Removes the call at `idx`.
    pub fn remove_part_at_index(&mut self, idx: usize)
        requires
            idx < old(self)@.len(),
        ensures
            final(self)@ == old(self)@.remove(idx as int),
    {
        self.parts.remove(idx);
        assert(self@ =~= old(self)@.remove(idx as int));
    }

    /// Replaces the call at `idx`.
    pub fn set_part(&mut self, idx: usize, call: Call)
        requires
            idx < old(self)@.len(),
        ensures
            final(self)@ == old(self)@.update(idx as int, call_view(call)),
    {
        self.parts.set(idx, call);
        assert(self@ =~= old(self)@.update(idx as int, call_view(call)));
    }

    /// Replaces the bytes of argument `arg` of call `idx`.
    pub fn set_arg(&mut self, idx: usize, arg: usize, bytes: Vec<u8>)
        requires
            idx < old(self)@.len(),
            arg < NUM_ARGS,
        ensures
            final(self)@ == old(self)@.update(
                idx as int,
                old(self)@[idx as int].update(arg as int, bytes@),
            ),
    {
        let mut call = empty_call();
        std::mem::swap(&mut call, &mut self.parts[idx]);
        call[arg] = bytes;
        std::mem::swap(&mut call, &mut self.parts[idx]);
        assert(self@ =~= old(self)@.update(
            idx as int,
            old(self)@[idx as int].update(arg as int, bytes@),
        )) by {
            assert(call_view(self.parts@[idx as int]) =~= old(self)@[idx as int].update(
                arg as int,
                bytes@,
            ));
        }
    }

    /// Exchanges the calls at `i` and `j`.
    pub fn swap_parts(&mut self, i: usize, j: usize)
        requires
            i < old(self)@.len(),
            j < old(self)@.len(),
        ensures
            final(self)@ == old(self)@.update(i as int, old(self)@[j as int]).update(
                j as int,
                old(self)@[i as int],
            ),
    {
        if i == j {
            assert(self@ =~= old(self)@.update(i as int, old(self)@[j as int]).update(
                j as int,
                old(self)@[i as int],
            ));
            return;
        }
        let mut tmp = empty_call();
        std::mem::swap(&mut tmp, &mut self.parts[i]);
        std::mem::swap(&mut tmp, &mut self.parts[j]);
        std::mem::swap(&mut tmp, &mut self.parts[i]);
        assert(self@ =~= old(self)@.update(i as int, old(self)@[j as int]).update(
            j as int,
            old(self)@[i as int],
        ));
    }

    /// Exchanges argument `arg` between the calls at `i` and `j`.
    pub fn swap_arg(&mut self, i: usize, j: usize, arg: usize)
        requires
            i < old(self)@.len(),
            j < old(self)@.len(),
            i != j,
            arg < NUM_ARGS,
        ensures
            final(self)@ == old(self)@.update(
                i as int,
                old(self)@[i as int].update(arg as int, old(self)@[j as int][arg as int]),
            ).update(j as int, old(self)@[j as int].update(arg as int, old(self)@[i as int][arg as int])),
    {
        let mut ci = empty_call();
        let mut cj = empty_call();
        std::mem::swap(&mut ci, &mut self.parts[i]);
        std::mem::swap(&mut cj, &mut self.parts[j]);
        let mut tmp: Vec<u8> = Vec::new();
        std::mem::swap(&mut tmp, &mut ci[arg]);
        std::mem::swap(&mut tmp, &mut cj[arg]);
        std::mem::swap(&mut tmp, &mut ci[arg]);
        std::mem::swap(&mut ci, &mut self.parts[i]);
        std::mem::swap(&mut cj, &mut self.parts[j]);
        proof {
            let o = old(self)@;
            assert(call_view(self.parts@[i as int]) =~= o[i as int].update(
                arg as int,
                o[j as int][arg as int],
            ));
            assert(call_view(self.parts@[j as int]) =~= o[j as int].update(
                arg as int,
                o[i as int][arg as int],
            ));
            assert(self@ =~= o.update(
                i as int,
                o[i as int].update(arg as int, o[j as int][arg as int]),
            ).update(j as int, o[j as int].update(arg as int, o[i as int][arg as int])));
        }
    }

    /// Reverses the order of the calls.
    pub fn reverse_parts(&mut self)
        ensures
            final(self)@ == old(self)@.reverse(),
    {
        let n = self.parts.len();
        let mut k: usize = 0;
        while k < n / 2
            invariant
                n == self@.len(),
                n == old(self)@.len(),
                k <= n / 2,
                forall|x: int| 0 <= x < k ==> #[trigger] self@[x] == old(self)@[n - 1 - x],
                forall|x: int| n - k <= x < n ==> #[trigger] self@[x] == old(self)@[n - 1 - x],
                forall|x: int| k <= x < n - k ==> #[trigger] self@[x] == old(self)@[x],
            decreases n / 2 - k,
        {
            self.swap_parts(k, n - 1 - k);
            k = k + 1;
        }
        assert(self@ =~= old(self)@.reverse());
    }

    /// Rotates the calls left by `k` positions: the call at `k` comes first.
    pub fn rotate_parts_left(&mut self, k: usize)
        requires
            k <= old(self)@.len(),
        ensures
            final(self)@ == old(self)@.subrange(k as int, old(self)@.len() as int) + old(
                self,
            )@.subrange(0, k as int),
    {
        let mut tail = self.parts.split_off(k);
        tail.append(&mut self.parts);
        self.parts = tail;
        assert(self@ =~= old(self)@.subrange(k as int, old(self)@.len() as int) + old(
            self,
        )@.subrange(0, k as int));
    }
}

} // verus!
