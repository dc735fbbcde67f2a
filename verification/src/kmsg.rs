//! Recognition of crash reports in kernel log messages.
//!
//! Reading `/dev/kmsg` is the caller's part; this module decides whether the
//! bytes read report a (nonfatal) kernel crash.
use vstd::prelude::*;

verus! {

use vstd::string::StringSliceAdditionalSpecFns;

/// The crash patterns, as text.
pub open spec fn crash_pattern_strs() -> Seq<&'static str> {
    seq![
        "KASAN:",
        "KFENCE:",
        "KCSAN:",
        "UBSAN:",
        "use-after-free",
        "double-free",
        "slab-out-of-bounds",
        "slab-use-after-free",
        "stack-out-of-bounds",
        "kernel NULL pointer",
        "unable to handle",
        "general protection fault",
        "WARNING:",
        "Oops:",
    ]
}

/// Whether `needle` occurs as a contiguous window of `haystack`.
pub open spec fn occurs_in(haystack: Seq<u8>, needle: Seq<u8>) -> bool {
    exists|i: int|
        0 <= i && i + needle.len() <= haystack.len() && #[trigger] haystack.subrange(
            i,
            i + needle.len(),
        ) == needle
}

/// Whether `msg` contains the (UTF-8) bytes of some crash pattern.
pub open spec fn has_crash_pattern(msg: Seq<u8>) -> bool {
    exists|k: int|
        0 <= k < crash_pattern_strs().len() && occurs_in(
            msg,
            #[trigger] crash_pattern_strs()[k].spec_bytes(),
        )
}

/// Whether `needle` (non-empty) occurs in `haystack`.
fn memmem(haystack: &[u8], needle: &[u8]) -> (found: bool)
    requires
        needle@.len() > 0,
    ensures
        found == occurs_in(haystack@, needle@),
{
    let n = needle.len();
    if n > haystack.len() {
        return false;
    }
    let mut i: usize = 0;
    while i <= haystack.len() - n
        invariant
            n == needle@.len(),
            n <= haystack@.len(),
            0 <= i <= haystack@.len() - n + 1,
            forall|j: int| 0 <= j < i ==> #[trigger] haystack@.subrange(j, j + needle@.len()) != needle@,
        decreases haystack@.len() - n + 1 - i,
    {
        let mut k: usize = 0;
        let mut same = true;
        while k < n
            invariant
                n == needle@.len(),
                i + n <= haystack@.len(),
                haystack@.len() <= usize::MAX,
                0 <= k <= n,
                same == (forall|m: int| 0 <= m < k ==> haystack@[i + m] == needle@[m]),
            decreases n - k,
        {
            if haystack[i + k] != needle[k] {
                same = false;
            }
            k = k + 1;
        }
        if same {
            assert(haystack@.subrange(i as int, i + n) =~= needle@);
            return true;
        }
        proof {
            let m = choose|m: int| 0 <= m < n && haystack@[i + m] != needle@[m];
            assert(haystack@.subrange(i as int, i + n)[m] != needle@[m]);
        }
        i = i + 1;
    }
    proof {
        assert forall|j: int|
            0 <= j && j + needle@.len() <= haystack@.len() implies #[trigger] haystack@.subrange(
            j,
            j + needle@.len(),
        ) != needle@ by {}
    }
    false
}

/// Whether `msg` contains one of the crash patterns: memory-corruption
/// detector reports (KASAN, KFENCE, KCSAN, UBSAN, use-after-free, ...),
/// faults and kernel warnings.
pub fn contains_crash_pattern(msg: &[u8]) -> (found: bool)
    ensures
        found == has_crash_pattern(msg@),
{
    let patterns: [&'static str; 14] = [
        "KASAN:",
        "KFENCE:",
        "KCSAN:",
        "UBSAN:",
        "use-after-free",
        "double-free",
        "slab-out-of-bounds",
        "slab-use-after-free",
        "stack-out-of-bounds",
        "kernel NULL pointer",
        "unable to handle",
        "general protection fault",
        "WARNING:",
        "Oops:",
    ];
    assert(patterns@ =~= crash_pattern_strs());
    let mut k: usize = 0;
    while k < 14
        invariant
            patterns@ == crash_pattern_strs(),
            0 <= k <= 14,
            forall|j: int| 0 <= j < k ==> !occurs_in(msg@, #[trigger] crash_pattern_strs()[j].spec_bytes()),
        decreases 14 - k,
    {
        let p = patterns[k].as_bytes();
        proof {
            reveal_strlit("KASAN:");
            reveal_strlit("KFENCE:");
            reveal_strlit("KCSAN:");
            reveal_strlit("UBSAN:");
            reveal_strlit("use-after-free");
            reveal_strlit("double-free");
            reveal_strlit("slab-out-of-bounds");
            reveal_strlit("slab-use-after-free");
            reveal_strlit("stack-out-of-bounds");
            reveal_strlit("kernel NULL pointer");
            reveal_strlit("unable to handle");
            reveal_strlit("general protection fault");
            reveal_strlit("WARNING:");
            reveal_strlit("Oops:");
        }
        if memmem(msg, p) {
            return true;
        }
        k = k + 1;
    }
    false
}

/// A message holding the bytes of crash pattern `k`, whatever comes before
/// and after them, holds a crash pattern.
proof fn lemma_pattern_anywhere(before: Seq<u8>, after: Seq<u8>, k: int)
    requires
        0 <= k < crash_pattern_strs().len(),
    ensures
        has_crash_pattern(before + crash_pattern_strs()[k].spec_bytes() + after),
{
    let p = crash_pattern_strs()[k].spec_bytes();
    let msg = before + p + after;
    assert(msg.subrange(before.len() as int, (before.len() + p.len()) as int) =~= p);
    assert(occurs_in(msg, p));
}

/// Every kernel report the fuzzer treats as a crash is recognised wherever
/// it stands in a message: a detector report (KASAN, KFENCE, KCSAN, UBSAN),
/// a memory-safety violation (use-after-free, double-free, slab, stack), a
/// NULL dereference or unhandled fault, a general protection fault, a
/// warning or an oops.
pub proof fn law_crash_reports_recognised(before: Seq<u8>, after: Seq<u8>)
    ensures
        has_crash_pattern(before + "KASAN:".spec_bytes() + after),
        has_crash_pattern(before + "KFENCE:".spec_bytes() + after),
        has_crash_pattern(before + "KCSAN:".spec_bytes() + after),
        has_crash_pattern(before + "UBSAN:".spec_bytes() + after),
        has_crash_pattern(before + "use-after-free".spec_bytes() + after),
        has_crash_pattern(before + "double-free".spec_bytes() + after),
        has_crash_pattern(before + "slab-out-of-bounds".spec_bytes() + after),
        has_crash_pattern(before + "slab-use-after-free".spec_bytes() + after),
        has_crash_pattern(before + "stack-out-of-bounds".spec_bytes() + after),
        has_crash_pattern(before + "kernel NULL pointer".spec_bytes() + after),
        has_crash_pattern(before + "unable to handle".spec_bytes() + after),
        has_crash_pattern(before + "general protection fault".spec_bytes() + after),
        has_crash_pattern(before + "WARNING:".spec_bytes() + after),
        has_crash_pattern(before + "Oops:".spec_bytes() + after),
{
    lemma_pattern_anywhere(before, after, 0);
    lemma_pattern_anywhere(before, after, 1);
    lemma_pattern_anywhere(before, after, 2);
    lemma_pattern_anywhere(before, after, 3);
    lemma_pattern_anywhere(before, after, 4);
    lemma_pattern_anywhere(before, after, 5);
    lemma_pattern_anywhere(before, after, 6);
    lemma_pattern_anywhere(before, after, 7);
    lemma_pattern_anywhere(before, after, 8);
    lemma_pattern_anywhere(before, after, 9);
    lemma_pattern_anywhere(before, after, 10);
    lemma_pattern_anywhere(before, after, 11);
    lemma_pattern_anywhere(before, after, 12);
    lemma_pattern_anywhere(before, after, 13);
}

/// Whether a crash has been seen, after one more piece of the kernel log:
/// true when it was seen before or this piece holds a crash pattern.
pub fn note_chunk(found_crash: bool, msg: &[u8]) -> (found: bool)
    ensures
        found == (found_crash || has_crash_pattern(msg@)),
{
    if !found_crash && contains_crash_pattern(msg) {
        true
    } else {
        found_crash
    }
}

} // verus!
