//! Transfer executor: applies a plan entry by entry, resolves name
//! collisions through the conflict protocol, and falls back from an atomic
//! rename to copy-then-delete when moving across devices.
//!
//! Entries are processed sequentially: progress events feed a single
//! progress bar, and conflicts are asked one at a time.  One file's failure
//! never aborts the batch; a terminal summary event always follows the
//! loop unless the request went stale.

use vstd::prelude::*;
use vstd::string::StrSliceExecFns;
use vstd::string::StringExecFns;

use crate::fsmodel::FsModel;
use crate::opstream::{ConflictRequest, ConflictResponse, CopyStreamState, DuplicateStrategy};
use crate::planner::TransferPlan;
use crate::strutil::{
    dec_digits, ext_of, file_name_of, join_path, lemma_dec_digits_injective, lemma_dec_digits_val,
    split_stem_ext, stem_of, str_eq, u64_to_dec,
};

verus! {

/// The name that auto-renaming produces: the stem, an incrementing counter
/// in parentheses, then the extension.
pub open spec fn indexed_name_of(stem: Seq<char>, i: int, ext: Seq<char>) -> Seq<char> {
    stem + " ("@ + dec_digits(i) + ")"@ + ext
}

/// The `i`-th renaming candidate for a destination path.
pub open spec fn candidate_of(path: Seq<char>, i: int) -> Seq<char> {
    indexed_name_of(stem_of(path), i, ext_of(path))
}

/// Whether a name occurs in a list of occupied names.
pub open spec fn name_taken(n: Seq<char>, taken: Seq<String>) -> bool {
    exists|t: int| 0 <= t < taken.len() && taken[t]@ == n
}

/// Build the indexed name.
pub fn indexed_name(stem: &str, i: u64, ext: &str) -> (r: String)
    ensures
        r@ == indexed_name_of(stem@, i as int, ext@),
{
    let digits = u64_to_dec(i);
    let mut s = String::from_str(stem);
    s.append(" (");
    s.append(digits.as_str());
    s.append(")");
    s.append(ext);
    assert(s@ =~= stem@ + " ("@ + dec_digits(i as int) + ")"@ + ext@);
    s
}

/// Distinct counters give distinct candidates.
pub proof fn lemma_candidate_injective(path: Seq<char>, i: int, j: int)
    requires
        i >= 0,
        j >= 0,
        candidate_of(path, i) == candidate_of(path, j),
    ensures
        i == j,
{
    reveal_strlit(" (");
    reveal_strlit(")");
    let s = stem_of(path);
    let e = ext_of(path);
    let p = " ("@;
    let q = ")"@;
    let a = dec_digits(i);
    let b = dec_digits(j);
    lemma_dec_digits_val(i);
    lemma_dec_digits_val(j);
    let w1 = candidate_of(path, i);
    let w2 = candidate_of(path, j);
    assert(w1.len() == s.len() + 2 + a.len() + 1 + e.len());
    assert(w2.len() == s.len() + 2 + b.len() + 1 + e.len());
    assert(a.len() == b.len());
    assert forall|k: int| 0 <= k < a.len() implies a[k] == b[k] by {
        let idx = s.len() + 2 + k;
        assert(((s + p) + a)[idx] == a[k]);
        assert((((s + p) + a) + q)[idx] == ((s + p) + a)[idx]);
        assert(w1[idx] == (((s + p) + a) + q)[idx]);
        assert(((s + p) + b)[idx] == b[k]);
        assert((((s + p) + b) + q)[idx] == ((s + p) + b)[idx]);
        assert(w2[idx] == (((s + p) + b) + q)[idx]);
    }
    assert(a =~= b);
    lemma_dec_digits_injective(i, j);
}

/// Among the first `n + 1` candidates for a name, at least one is free of
/// any list of `n` occupied names.
proof fn lemma_free_candidate(path: Seq<char>, taken: Seq<String>)
    ensures
        exists|k: int|
            1 <= k <= taken.len() + 1 && !name_taken(candidate_of(path, k), taken),
    decreases taken.len(),
{
    let n = taken.len() as int;
    if !name_taken(candidate_of(path, n + 1), taken) {
        assert(1 <= n + 1 <= taken.len() + 1 && !name_taken(candidate_of(path, n + 1), taken));
    } else {
        let t = choose|t: int| 0 <= t < n && taken[t]@ == candidate_of(path, n + 1);
        let rest = taken.remove(t);
        lemma_free_candidate(path, rest);
        let k = choose|k: int|
            1 <= k <= rest.len() + 1 && !name_taken(candidate_of(path, k), rest);
        assert(!name_taken(candidate_of(path, k), taken)) by {
            if name_taken(candidate_of(path, k), taken) {
                let u = choose|u: int| 0 <= u < n && taken[u]@ == candidate_of(path, k);
                if u == t {
                    lemma_candidate_injective(path, k, n + 1);
                } else if u < t {
                    assert(rest[u]@ == candidate_of(path, k));
                } else {
                    assert(rest[u - 1]@ == candidate_of(path, k));
                }
            }
        }
    }
}

fn contains_name(taken: &Vec<String>, cand: &str) -> (r: bool)
    ensures
        r == name_taken(cand@, taken@),
{
    let mut t: usize = 0;
    while t < taken.len()
        invariant
            t <= taken@.len(),
            forall|k: int| 0 <= k < t ==> taken@[k]@ != cand@,
        decreases taken@.len() - t,
    {
        if str_eq(taken[t].as_str(), cand) {
            return true;
        }
        t = t + 1;
    }
    false
}

/// Resolve an `Index` conflict: append an incrementing parenthesized
/// counter to the file stem, keeping the extension, and take the first
/// counter whose name is free — so the result is the candidate with the
/// least free counter, starting from one.
pub fn next_free_name(path: &str, taken: &Vec<String>) -> (r: String)
    requires
        taken@.len() < u64::MAX,
    ensures
        exists|k: int|
            {
                &&& 1 <= k <= taken@.len() + 1
                &&& r@ == candidate_of(path@, k)
                &&& !name_taken(candidate_of(path@, k), taken@)
                &&& forall|m: int| 1 <= m < k ==> name_taken(candidate_of(path@, m), taken@)
            },
        !name_taken(r@, taken@),
{
    let (stem, ext) = split_stem_ext(path);
    proof {
        lemma_free_candidate(path@, taken@);
    }
    let mut k: u64 = 1;
    loop
        invariant
            1 <= k <= taken@.len() + 1,
            stem@ == stem_of(path@),
            ext@ == ext_of(path@),
            taken@.len() < u64::MAX,
            forall|m: int| 1 <= m < k ==> name_taken(candidate_of(path@, m), taken@),
        decreases taken@.len() + 1 - k,
    {
        let cand = indexed_name(stem.as_str(), k, ext.as_str());
        if !contains_name(taken, cand.as_str()) {
            proof {
                let kk = k as int;
                assert(1 <= kk <= taken@.len() + 1);
                assert(cand@ == candidate_of(path@, kk));
                assert(!name_taken(candidate_of(path@, kk), taken@));
                assert(forall|m: int| 1 <= m < kk ==> name_taken(candidate_of(path@, m), taken@));
            }
            return cand;
        }
        proof {
            if k == taken@.len() + 1 {
                lemma_free_candidate(path@, taken@);
                let w = choose|w: int|
                    1 <= w <= taken@.len() + 1 && !name_taken(candidate_of(path@, w), taken@);
                assert(name_taken(candidate_of(path@, w), taken@));
            }
        }
        k = k + 1;
    }
}

/// How transferred entries reach the destination.
#[derive(Clone, Copy, Debug, PartialEq, Eq, Structural)]
pub enum TransferOp {
    /// Copy each file, leaving sources in place (links paste as copies).
    Copy,
    /// Move each file: atomic rename first, copy-then-delete on failure.
    Move,
}

/// The transfer semantics of a clipboard operation: copies and links
/// paste as copies, cuts as moves, and an unrecognised drop effect is
/// refused.
pub fn transfer_op_of(op: crate::opstream::ClipboardOp) -> (r: Option<TransferOp>)
    ensures
        r == (match op {
            crate::opstream::ClipboardOp::Copy => Some(TransferOp::Copy),
            crate::opstream::ClipboardOp::Link => Some(TransferOp::Copy),
            crate::opstream::ClipboardOp::Move => Some(TransferOp::Move),
            crate::opstream::ClipboardOp::Unknown => None::<TransferOp>,
        }),
{
    match op {
        crate::opstream::ClipboardOp::Copy => Some(TransferOp::Copy),
        crate::opstream::ClipboardOp::Link => Some(TransferOp::Copy),
        crate::opstream::ClipboardOp::Move => Some(TransferOp::Move),
        crate::opstream::ClipboardOp::Unknown => None,
    }
}

/// Copy one file in the model: the destination gets the source's bytes.
/// Yields the byte count, or nothing when the source is missing.
pub fn copy_file_model(fs: &mut FsModel, src: &str, dest: &str) -> (r: Option<u64>)
    requires
        old(fs).wf(),
        old(fs).view_map().contains_key(src@) ==> old(fs).view_map()[src@].len() <= u64::MAX,
    ensures
        final(fs).wf(),
        old(fs).view_map().contains_key(src@) ==> {
            &&& r == Some(old(fs).view_map()[src@].len() as u64)
            &&& final(fs).view_map() == old(fs).view_map().insert(
                dest@,
                old(fs).view_map()[src@],
            )
        },
        !old(fs).view_map().contains_key(src@) ==> r is None && final(fs).view_map() == old(
            fs,
        ).view_map(),
{
    match fs.read_file(src) {
        Some(bytes) => {
            let n = bytes.len() as u64;
            fs.write_file(dest, bytes);
            Some(n)
        },
        None => None,
    }
}

/// Move one file in the model.  A working rename transfers the bytes and
/// reports zero bytes copied; a failed rename (for instance across
/// devices) falls back to copy-then-delete, which still leaves the
/// destination holding the source's bytes and the source removed.
pub fn move_file_model(fs: &mut FsModel, src: &str, dest: &str, rename_ok: bool) -> (r: Option<
    u64,
>)
    requires
        old(fs).wf(),
        src@ != dest@,
        old(fs).view_map().contains_key(src@) ==> old(fs).view_map()[src@].len() <= u64::MAX,
    ensures
        final(fs).wf(),
        old(fs).view_map().contains_key(src@) ==> {
            &&& r is Some
            &&& final(fs).view_map() == old(fs).view_map().insert(
                dest@,
                old(fs).view_map()[src@],
            ).remove(src@)
            &&& final(fs).view_map().contains_key(dest@)
            &&& final(fs).view_map()[dest@] == old(fs).view_map()[src@]
            &&& !final(fs).view_map().contains_key(src@)
            &&& rename_ok ==> r == Some(0u64)
            &&& !rename_ok ==> r == Some(old(fs).view_map()[src@].len() as u64)
        },
        !old(fs).view_map().contains_key(src@) ==> r is None && final(fs).view_map() == old(
            fs,
        ).view_map(),
{
    if rename_ok {
        match fs.read_file(src) {
            Some(bytes) => {
                fs.write_file(dest, bytes);
                fs.remove_file(src);
                Some(0)
            },
            None => None,
        }
    } else {
        match copy_file_model(fs, src, dest) {
            Some(n) => {
                fs.remove_file(src);
                Some(n)
            },
            None => None,
        }
    }
}

/// One emission of the executor, tagged with the request it belongs to.
pub enum TransferEvent {
    /// The request went stale; nothing further is emitted.
    Cancelled { request_id: u64 },
    /// A collision is waiting on the user's decision.
    Conflict { request_id: u64, src: String, dest: String, name: String },
    /// One file transferred, with the bytes copied.
    FileDone { request_id: u64, src: String, dest: String, bytes: u64 },
    /// One file failed; the batch continues.
    FileError { request_id: u64, src: String, dest: String },
    /// Terminal summary: always emitted unless the request went stale.
    Complete { request_id: u64, total_bytes: u64, files_processed: usize },
}

/// The absolute destination a plan entry lands at.
pub open spec fn dest_path_of(root: Seq<char>, rel: Seq<char>) -> Seq<char> {
    root + seq!['/'] + rel
}

/// A copy plan with free destinations: no destination is occupied, no
/// two paths of the plan interfere, and any source that is present fits
/// the byte counter.  Sources may be missing — such entries fail file by
/// file without disturbing the rest of the batch.
pub open spec fn clean_copy_plan(
    m: Map<Seq<char>, Seq<u8>>,
    root: Seq<char>,
    entries: Seq<crate::planner::PlanEntry>,
) -> bool {
    &&& forall|k: int|
        0 <= k < entries.len() ==> (m.contains_key(#[trigger] entries[k].src@)
            ==> m[entries[k].src@].len() <= u64::MAX)
    &&& forall|k: int|
        0 <= k < entries.len() ==> !m.contains_key(dest_path_of(root, #[trigger] entries[k].rel@))
    &&& plan_paths_disjoint(root, entries)
}

/// No two destinations coincide, and no source is any entry's
/// destination.
pub open spec fn plan_paths_disjoint(
    root: Seq<char>,
    entries: Seq<crate::planner::PlanEntry>,
) -> bool {
    &&& forall|k: int, j: int|
        0 <= k < entries.len() && 0 <= j < entries.len() && k != j ==> dest_path_of(
            root,
            #[trigger] entries[k].rel@,
        ) != dest_path_of(root, #[trigger] entries[j].rel@)
    &&& forall|k: int, j: int|
        0 <= k < entries.len() && 0 <= j < entries.len() ==> #[trigger] entries[k].src@
            != dest_path_of(root, #[trigger] entries[j].rel@)
}

/// The destination map after the first `i` entries of a clean copy plan:
/// each present source's bytes land at its destination, a missing source
/// changes nothing.
pub open spec fn copied_up_to(
    m: Map<Seq<char>, Seq<u8>>,
    root: Seq<char>,
    entries: Seq<crate::planner::PlanEntry>,
    i: int,
) -> Map<Seq<char>, Seq<u8>>
    decreases i,
{
    if i <= 0 {
        m
    } else if m.contains_key(entries[i - 1].src@) {
        copied_up_to(m, root, entries, i - 1).insert(
            dest_path_of(root, entries[i - 1].rel@),
            m[entries[i - 1].src@],
        )
    } else {
        copied_up_to(m, root, entries, i - 1)
    }
}

proof fn lemma_copied_up_to_other(
    m: Map<Seq<char>, Seq<u8>>,
    root: Seq<char>,
    entries: Seq<crate::planner::PlanEntry>,
    i: int,
    p: Seq<char>,
)
    requires
        0 <= i <= entries.len(),
        forall|k: int| 0 <= k < i ==> p != dest_path_of(root, #[trigger] entries[k].rel@),
    ensures
        copied_up_to(m, root, entries, i).contains_key(p) == m.contains_key(p),
        m.contains_key(p) ==> copied_up_to(m, root, entries, i)[p] == m[p],
    decreases i,
{
    if i > 0 {
        lemma_copied_up_to_other(m, root, entries, i - 1, p);
    }
}

/// A move plan with nothing in the way: a clean copy plan whose sources
/// are all present and pairwise distinct, so each is still in place when
/// its turn comes.
pub open spec fn clean_move_plan(
    m: Map<Seq<char>, Seq<u8>>,
    root: Seq<char>,
    entries: Seq<crate::planner::PlanEntry>,
) -> bool {
    &&& clean_copy_plan(m, root, entries)
    &&& forall|k: int| 0 <= k < entries.len() ==> m.contains_key(#[trigger] entries[k].src@)
    &&& forall|k: int, j: int|
        0 <= k < entries.len() && 0 <= j < entries.len() && k != j ==> #[trigger] entries[k].src@
            != #[trigger] entries[j].src@
}

/// The destination map after the first `i` entries of a clean move plan:
/// each source's bytes land at its destination and the source is gone.
pub open spec fn moved_up_to(
    m: Map<Seq<char>, Seq<u8>>,
    root: Seq<char>,
    entries: Seq<crate::planner::PlanEntry>,
    i: int,
) -> Map<Seq<char>, Seq<u8>>
    decreases i,
{
    if i <= 0 {
        m
    } else {
        moved_up_to(m, root, entries, i - 1).insert(
            dest_path_of(root, entries[i - 1].rel@),
            m[entries[i - 1].src@],
        ).remove(entries[i - 1].src@)
    }
}

proof fn lemma_moved_up_to_other(
    m: Map<Seq<char>, Seq<u8>>,
    root: Seq<char>,
    entries: Seq<crate::planner::PlanEntry>,
    i: int,
    p: Seq<char>,
)
    requires
        0 <= i <= entries.len(),
        forall|k: int| 0 <= k < i ==> p != dest_path_of(root, #[trigger] entries[k].rel@),
        forall|k: int| 0 <= k < i ==> p != #[trigger] entries[k].src@,
    ensures
        moved_up_to(m, root, entries, i).contains_key(p) == m.contains_key(p),
        m.contains_key(p) ==> moved_up_to(m, root, entries, i)[p] == m[p],
    decreases i,
{
    if i > 0 {
        lemma_moved_up_to_other(m, root, entries, i - 1, p);
    }
}

/// A paste where every destination already collides: sources present and
/// within the byte counter, every destination occupied, and the plan's
/// paths pairwise non-interfering.  This is the shape of the conflict
/// scenarios: what happens then is decided by the user's answers.
pub open spec fn colliding_copy_plan(
    m: Map<Seq<char>, Seq<u8>>,
    root: Seq<char>,
    entries: Seq<crate::planner::PlanEntry>,
) -> bool {
    &&& entries.len() >= 1
    &&& forall|k: int|
        0 <= k < entries.len() ==> m.contains_key(#[trigger] entries[k].src@) && m[entries[k].src@].len()
            <= u64::MAX
    &&& forall|k: int|
        0 <= k < entries.len() ==> m.contains_key(dest_path_of(root, #[trigger] entries[k].rel@))
    &&& plan_paths_disjoint(root, entries)
}

/// The destination map after overwriting the first `i` entries of a
/// colliding plan resolved with `Replace`.
pub open spec fn overwritten_up_to(
    m: Map<Seq<char>, Seq<u8>>,
    root: Seq<char>,
    entries: Seq<crate::planner::PlanEntry>,
    i: int,
) -> Map<Seq<char>, Seq<u8>>
    decreases i,
{
    if i <= 0 {
        m
    } else {
        overwritten_up_to(m, root, entries, i - 1).insert(
            dest_path_of(root, entries[i - 1].rel@),
            m[entries[i - 1].src@],
        )
    }
}

proof fn lemma_overwritten_up_to_other(
    m: Map<Seq<char>, Seq<u8>>,
    root: Seq<char>,
    entries: Seq<crate::planner::PlanEntry>,
    i: int,
    p: Seq<char>,
)
    requires
        0 <= i <= entries.len(),
        forall|k: int| 0 <= k < i ==> p != dest_path_of(root, #[trigger] entries[k].rel@),
    ensures
        overwritten_up_to(m, root, entries, i).contains_key(p) == m.contains_key(p),
        m.contains_key(p) ==> overwritten_up_to(m, root, entries, i)[p] == m[p],
    decreases i,
{
    if i > 0 {
        lemma_overwritten_up_to_other(m, root, entries, i - 1, p);
    }
}

/// Run a transfer plan against a modelled destination.  The scripted
/// `responses` stand for the user's answers, consumed one per conflict
/// prompt; a conflict with no answer left skips its entry, as a mismatched
/// submission does.  Emits per-file events in plan order and exactly one
/// terminal event.
pub fn execute_plan_on(
    fs: &mut FsModel,
    dest_root: &str,
    plan: &TransferPlan,
    op: TransferOp,
    state: &mut CopyStreamState,
    responses: &Vec<ConflictResponse>,
    request_id: u64,
    rename_ok: bool,
) -> (events: Vec<TransferEvent>)
    requires
        old(fs).wf(),
    ensures
        final(fs).wf(),
        final(state).token == old(state).token,
        old(state).token.spec_is_stale(request_id) ==> {
            &&& events@.len() == 1
            &&& events@[0] == (TransferEvent::Cancelled { request_id })
            &&& final(fs).view_map() == old(fs).view_map()
        },
        !old(state).token.spec_is_stale(request_id) ==> {
            &&& events@.len() >= 1
            &&& events@.last() == (TransferEvent::Complete {
                request_id,
                total_bytes: plan.total_bytes,
                files_processed: plan.entries@.len() as usize,
            })
            &&& forall|e: int|
                0 <= e < events@.len() - 1 ==> !(events@[e] is Cancelled) && !(events@[e]
                    is Complete)
        },
        (!old(state).token.spec_is_stale(request_id) && op == TransferOp::Copy && clean_copy_plan(
            old(fs).view_map(),
            dest_root@,
            plan.entries@,
        )) ==> {
            &&& final(fs).view_map() == copied_up_to(
                old(fs).view_map(),
                dest_root@,
                plan.entries@,
                plan.entries@.len() as int,
            )
            &&& events@.len() == plan.entries@.len() + 1
            &&& forall|k: int|
                0 <= k < plan.entries@.len() ==> (if old(fs).view_map().contains_key(
                    plan.entries@[k].src@,
                ) {
                    (#[trigger] events@[k] matches TransferEvent::FileDone {
                        request_id: rid,
                        src,
                        dest,
                        bytes,
                    } && rid == request_id && src@ == plan.entries@[k].src@ && dest@
                        == dest_path_of(dest_root@, plan.entries@[k].rel@) && bytes == old(
                        fs,
                    ).view_map()[plan.entries@[k].src@].len())
                } else {
                    (events@[k] matches TransferEvent::FileError { request_id: rid, src, dest }
                        && rid == request_id && src@ == plan.entries@[k].src@ && dest@
                        == dest_path_of(dest_root@, plan.entries@[k].rel@))
                })
        },
        (!old(state).token.spec_is_stale(request_id) && op == TransferOp::Copy
            && colliding_copy_plan(old(fs).view_map(), dest_root@, plan.entries@)
            && responses@.len() >= 1 && responses@[0] == (ConflictResponse {
            strategy: DuplicateStrategy::Replace,
            repeat_for_all: true,
        })) ==> {
            &&& final(fs).view_map() == overwritten_up_to(
                old(fs).view_map(),
                dest_root@,
                plan.entries@,
                plan.entries@.len() as int,
            )
            &&& events@.len() == plan.entries@.len() + 2
            &&& (events@[0] matches TransferEvent::Conflict {
                request_id: rid,
                src,
                dest,
                name: _,
            } && rid == request_id && src@ == plan.entries@[0].src@ && dest@ == dest_path_of(
                dest_root@,
                plan.entries@[0].rel@,
            ))
            &&& forall|k: int|
                0 <= k < plan.entries@.len() ==> (#[trigger] events@[k + 1] matches
                    TransferEvent::FileDone { request_id: rid, src, dest, bytes } && rid
                    == request_id && src@ == plan.entries@[k].src@ && dest@ == dest_path_of(
                    dest_root@,
                    plan.entries@[k].rel@,
                ) && bytes == old(fs).view_map()[plan.entries@[k].src@].len())
            &&& forall|e: int| 1 <= e < events@.len() ==> !(#[trigger] events@[e] is Conflict)
            &&& final(state).request is None
            &&& final(state).response is None
        },
        (!old(state).token.spec_is_stale(request_id) && op == TransferOp::Copy
            && colliding_copy_plan(old(fs).view_map(), dest_root@, plan.entries@)
            && responses@.len() >= 1 && responses@[0] == (ConflictResponse {
            strategy: DuplicateStrategy::Ignore,
            repeat_for_all: true,
        })) ==> {
            &&& final(fs).view_map() == old(fs).view_map()
            &&& events@.len() == 2
            &&& (events@[0] matches TransferEvent::Conflict {
                request_id: rid,
                src,
                dest,
                name: _,
            } && rid == request_id && src@ == plan.entries@[0].src@ && dest@ == dest_path_of(
                dest_root@,
                plan.entries@[0].rel@,
            ))
        },
        (!old(state).token.spec_is_stale(request_id) && op == TransferOp::Copy
            && colliding_copy_plan(old(fs).view_map(), dest_root@, plan.entries@)
            && responses@.len() == 0) ==> {
            &&& final(fs).view_map() == old(fs).view_map()
            &&& events@.len() == plan.entries@.len() + 1
            &&& forall|k: int|
                0 <= k < plan.entries@.len() ==> (#[trigger] events@[k] matches
                    TransferEvent::Conflict { request_id: rid, src, dest, name: _ } && rid
                    == request_id && src@ == plan.entries@[k].src@ && dest@ == dest_path_of(
                    dest_root@,
                    plan.entries@[k].rel@,
                ))
        },
        (!old(state).token.spec_is_stale(request_id) && op == TransferOp::Move && clean_move_plan(
            old(fs).view_map(),
            dest_root@,
            plan.entries@,
        )) ==> {
            &&& final(fs).view_map() == moved_up_to(
                old(fs).view_map(),
                dest_root@,
                plan.entries@,
                plan.entries@.len() as int,
            )
            &&& events@.len() == plan.entries@.len() + 1
            &&& forall|k: int|
                0 <= k < plan.entries@.len() ==> (#[trigger] events@[k] matches
                    TransferEvent::FileDone { request_id: rid, src, dest, bytes } && rid
                    == request_id && src@ == plan.entries@[k].src@ && dest@ == dest_path_of(
                    dest_root@,
                    plan.entries@[k].rel@,
                ) && bytes == (if rename_ok {
                    0
                } else {
                    old(fs).view_map()[plan.entries@[k].src@].len() as u64
                }))
        },
{
    let ghost m0 = old(fs).view_map();
    let ghost root = dest_root@;
    let ghost es = plan.entries@;
    let ghost clean = !old(state).token.spec_is_stale(request_id) && op == TransferOp::Copy
        && clean_copy_plan(m0, root, es);
    let ghost clean_mv = !old(state).token.spec_is_stale(request_id) && op == TransferOp::Move
        && clean_move_plan(m0, root, es);
    let ghost colliding = !old(state).token.spec_is_stale(request_id) && op == TransferOp::Copy
        && colliding_copy_plan(m0, root, es);
    let ghost ra = colliding && responses@.len() >= 1 && responses@[0] == (ConflictResponse {
        strategy: DuplicateStrategy::Replace,
        repeat_for_all: true,
    });
    let ghost ia = colliding && responses@.len() >= 1 && responses@[0] == (ConflictResponse {
        strategy: DuplicateStrategy::Ignore,
        repeat_for_all: true,
    });
    let ghost na = colliding && responses@.len() == 0;
    let mut events: Vec<TransferEvent> = Vec::new();
    let mut repeat_all: bool = false;
    let mut repeat_strategy: Option<DuplicateStrategy> = None;
    let mut next_response: usize = 0;
    let mut i: usize = 0;
    while i < plan.entries.len()
        invariant
            i <= plan.entries@.len(),
            fs.wf(),
            state.token == old(state).token,
            next_response <= responses@.len(),
            old(state).token.spec_is_stale(request_id) ==> i == 0 && events@.len() == 0
                && fs.view_map() == old(fs).view_map(),
            !old(state).token.spec_is_stale(request_id) ==> forall|e: int|
                0 <= e < events@.len() ==> !(events@[e] is Cancelled) && !(events@[e] is Complete),
            m0 == old(fs).view_map(),
            root == dest_root@,
            es == plan.entries@,
            clean == (!old(state).token.spec_is_stale(request_id) && op == TransferOp::Copy
                && clean_copy_plan(m0, root, es)),
            clean ==> fs.view_map() == copied_up_to(m0, root, es, i as int),
            clean ==> events@.len() == i,
            clean ==> forall|k: int|
                0 <= k < i ==> (if m0.contains_key(es[k].src@) {
                    (#[trigger] events@[k] matches TransferEvent::FileDone {
                        request_id: rid,
                        src,
                        dest,
                        bytes,
                    } && rid == request_id && src@ == es[k].src@ && dest@ == dest_path_of(
                        root,
                        es[k].rel@,
                    ) && bytes == m0[es[k].src@].len())
                } else {
                    (events@[k] matches TransferEvent::FileError { request_id: rid, src, dest }
                        && rid == request_id && src@ == es[k].src@ && dest@ == dest_path_of(
                        root,
                        es[k].rel@,
                    ))
                }),
            ra == (colliding && responses@.len() >= 1 && responses@[0] == (ConflictResponse {
                strategy: DuplicateStrategy::Replace,
                repeat_for_all: true,
            })),
            ia == (colliding && responses@.len() >= 1 && responses@[0] == (ConflictResponse {
                strategy: DuplicateStrategy::Ignore,
                repeat_for_all: true,
            })),
            na == (colliding && responses@.len() == 0),
            colliding == (!old(state).token.spec_is_stale(request_id) && op == TransferOp::Copy
                && colliding_copy_plan(m0, root, es)),
            (ra || ia) && i == 0 ==> !repeat_all && next_response == 0 && events@.len() == 0
                && fs.view_map() == m0,
            ra && i >= 1 ==> {
                &&& repeat_all
                &&& repeat_strategy == Some(DuplicateStrategy::Replace)
                &&& next_response == 1
                &&& fs.view_map() == overwritten_up_to(m0, root, es, i as int)
                &&& events@.len() == i + 1
                &&& state.request is None
                &&& state.response is None
            },
            ra && i >= 1 ==> (events@[0] matches TransferEvent::Conflict {
                request_id: rid,
                src,
                dest,
                name: _,
            } && rid == request_id && src@ == es[0].src@ && dest@ == dest_path_of(
                root,
                es[0].rel@,
            )),
            ra ==> forall|k: int|
                0 <= k < i ==> (#[trigger] events@[k + 1] matches TransferEvent::FileDone {
                    request_id: rid,
                    src,
                    dest,
                    bytes,
                } && rid == request_id && src@ == es[k].src@ && dest@ == dest_path_of(
                    root,
                    es[k].rel@,
                ) && bytes == m0[es[k].src@].len()),
            ia && i >= 1 ==> {
                &&& repeat_all
                &&& repeat_strategy == Some(DuplicateStrategy::Ignore)
                &&& next_response == 1
                &&& fs.view_map() == m0
                &&& events@.len() == 1
                &&& state.request is None
                &&& state.response is None
            },
            ia && i >= 1 ==> (events@[0] matches TransferEvent::Conflict {
                request_id: rid,
                src,
                dest,
                name: _,
            } && rid == request_id && src@ == es[0].src@ && dest@ == dest_path_of(
                root,
                es[0].rel@,
            )),
            na ==> !repeat_all && next_response == 0 && fs.view_map() == m0 && events@.len() == i,
            na ==> forall|k: int|
                0 <= k < i ==> (#[trigger] events@[k] matches TransferEvent::Conflict {
                    request_id: rid,
                    src,
                    dest,
                    name: _,
                } && rid == request_id && src@ == es[k].src@ && dest@ == dest_path_of(
                    root,
                    es[k].rel@,
                )),
            clean_mv == (!old(state).token.spec_is_stale(request_id) && op == TransferOp::Move
                && clean_move_plan(m0, root, es)),
            clean_mv ==> fs.view_map() == moved_up_to(m0, root, es, i as int),
            clean_mv ==> events@.len() == i,
            clean_mv ==> forall|k: int|
                0 <= k < i ==> (#[trigger] events@[k] matches TransferEvent::FileDone {
                    request_id: rid,
                    src,
                    dest,
                    bytes,
                } && rid == request_id && src@ == es[k].src@ && dest@ == dest_path_of(
                    root,
                    es[k].rel@,
                ) && bytes == (if rename_ok {
                    0
                } else {
                    m0[es[k].src@].len() as u64
                })),
        decreases plan.entries@.len() - i,
    {
        if state.token.is_stale(request_id) {
            events.push(TransferEvent::Cancelled { request_id });
            return events;
        }
        let entry = &plan.entries[i];
        let mut dest = join_path(dest_root, entry.rel.as_str());
        proof {
            if clean {
                assert(dest@ == dest_path_of(root, es[i as int].rel@));
                lemma_copied_up_to_other(m0, root, es, i as int, dest@);
                assert(!fs.view_map().contains_key(dest@));
                lemma_copied_up_to_other(m0, root, es, i as int, es[i as int].src@);
            }
            if clean_mv {
                assert(dest@ == dest_path_of(root, es[i as int].rel@));
                lemma_moved_up_to_other(m0, root, es, i as int, dest@);
                assert(!fs.view_map().contains_key(dest@));
                lemma_moved_up_to_other(m0, root, es, i as int, es[i as int].src@);
            }
            if ra || ia || na {
                assert(dest@ == dest_path_of(root, es[i as int].rel@));
                assert(m0.contains_key(dest@));
                if ra && i >= 1 {
                    lemma_overwritten_up_to_other(m0, root, es, i as int, dest@);
                    lemma_overwritten_up_to_other(m0, root, es, i as int, es[i as int].src@);
                }
                assert(fs.view_map().contains_key(dest@));
            }
        }
        // The model needs no parent-directory creation; a real
        // destination tree is grown by the shell before each copy.
        let mut skip = false;
        if fs.exists_file(dest.as_str()) {
            let chosen: DuplicateStrategy = if repeat_all {
                match repeat_strategy {
                    Some(s) => s,
                    None => DuplicateStrategy::Index,
                }
            } else {
                let name = file_name_of(dest.as_str());
                let req = ConflictRequest {
                    request_id,
                    src: entry.src.clone(),
                    dest: dest.clone(),
                    name: name.clone(),
                };
                state.request_conflict_decision(req);
                events.push(
                    TransferEvent::Conflict {
                        request_id,
                        src: entry.src.clone(),
                        dest: dest.clone(),
                        name,
                    },
                );
                let mut answered = false;
                if next_response < responses.len() {
                    let resp = responses[next_response];
                    next_response = next_response + 1;
                    match state.submit_conflict_response(request_id, resp) {
                        Ok(_) => {
                            answered = true;
                        },
                        Err(_) => {},
                    }
                }
                if answered {
                    match state.consume_response(request_id) {
                        Some(resp) => {
                            if resp.repeat_for_all {
                                repeat_all = true;
                                repeat_strategy = Some(resp.strategy);
                            }
                            resp.strategy
                        },
                        None => {
                            skip = true;
                            DuplicateStrategy::Ignore
                        },
                    }
                } else {
                    skip = true;
                    DuplicateStrategy::Ignore
                }
            };
            if !skip {
                match chosen {
                    DuplicateStrategy::Ignore => {
                        skip = true;
                    },
                    DuplicateStrategy::Replace => {
                        fs.remove_file(dest.as_str());
                    },
                    DuplicateStrategy::Index => {
                        let taken = fs.all_paths();
                        if taken.len() < usize::MAX {
                            dest = next_free_name(dest.as_str(), &taken);
                        }
                    },
                }
            }
        }
        if !skip {
            let same = str_eq(entry.src.as_str(), dest.as_str());
            let outcome: Option<u64> = match op {
                TransferOp::Copy => {
                    if fs.exists_file(entry.src.as_str()) && !read_len_fits(fs, entry.src.as_str())
                     {
                        None
                    } else {
                        copy_file_model(fs, entry.src.as_str(), dest.as_str())
                    }
                },
                TransferOp::Move => {
                    if same {
                        Some(0)
                    } else if fs.exists_file(entry.src.as_str()) && !read_len_fits(
                        fs,
                        entry.src.as_str(),
                    ) {
                        None
                    } else {
                        move_file_model(fs, entry.src.as_str(), dest.as_str(), rename_ok)
                    }
                },
            };
            match outcome {
                Some(bytes) => {
                    events.push(
                        TransferEvent::FileDone {
                            request_id,
                            src: entry.src.clone(),
                            dest: dest.clone(),
                            bytes,
                        },
                    );
                },
                None => {
                    events.push(
                        TransferEvent::FileError {
                            request_id,
                            src: entry.src.clone(),
                            dest: dest.clone(),
                        },
                    );
                },
            }
        }
        proof {
            if clean {
                assert(fs.view_map() =~= copied_up_to(m0, root, es, i + 1));
                if m0.contains_key(es[i as int].src@) {
                    assert(events@[i as int] matches TransferEvent::FileDone {
                        request_id: rid,
                        src,
                        dest: d,
                        bytes,
                    } && rid == request_id && src@ == es[i as int].src@ && d@ == dest_path_of(
                        root,
                        es[i as int].rel@,
                    ) && bytes == m0[es[i as int].src@].len());
                } else {
                    assert(events@[i as int] matches TransferEvent::FileError {
                        request_id: rid,
                        src,
                        dest: d,
                    } && rid == request_id && src@ == es[i as int].src@ && d@ == dest_path_of(
                        root,
                        es[i as int].rel@,
                    ));
                }
            }
            if ra {
                let cur = overwritten_up_to(m0, root, es, i as int);
                assert(cur.remove(dest@).insert(dest@, m0[es[i as int].src@]) =~= cur.insert(
                    dest@,
                    m0[es[i as int].src@],
                ));
                assert(fs.view_map() =~= overwritten_up_to(m0, root, es, i + 1));
                assert(events@[i + 1] matches TransferEvent::FileDone {
                    request_id: rid,
                    src,
                    dest: d,
                    bytes,
                } && rid == request_id && src@ == es[i as int].src@ && d@ == dest_path_of(
                    root,
                    es[i as int].rel@,
                ) && bytes == m0[es[i as int].src@].len());
            }
            if na {
                assert(events@[i as int] matches TransferEvent::Conflict {
                    request_id: rid,
                    src,
                    dest: d,
                    name: _,
                } && rid == request_id && src@ == es[i as int].src@ && d@ == dest_path_of(
                    root,
                    es[i as int].rel@,
                ));
            }
            if clean_mv {
                assert(fs.view_map() =~= moved_up_to(m0, root, es, i + 1));
                assert(events@[i as int] matches TransferEvent::FileDone {
                    request_id: rid,
                    src,
                    dest: d,
                    bytes,
                } && rid == request_id && src@ == es[i as int].src@ && d@ == dest_path_of(
                    root,
                    es[i as int].rel@,
                ) && bytes == (if rename_ok {
                    0
                } else {
                    m0[es[i as int].src@].len() as u64
                }));
            }
        }
        i = i + 1;
    }
    if state.token.is_stale(request_id) {
        events.push(TransferEvent::Cancelled { request_id });
        return events;
    }
    events.push(
        TransferEvent::Complete {
            request_id,
            total_bytes: plan.total_bytes,
            files_processed: plan.entries.len(),
        },
    );
    proof {
        if ra {
            assert forall|e: int| 1 <= e < events@.len() implies !(#[trigger] events@[e]
                is Conflict) by {
                if e < events@.len() - 1 {
                    let k = e - 1;
                    assert(events@[k + 1] is FileDone);
                } else {
                    assert(events@[e] is Complete);
                }
            }
        }
    }
    events
}

/// Whether the file's size fits the byte counter (real files always do).
fn read_len_fits(fs: &FsModel, path: &str) -> (r: bool)
    requires
        fs.wf(),
        fs.view_map().contains_key(path@),
    ensures
        r == (fs.view_map()[path@].len() <= u64::MAX),
{
    match fs.read_file(path) {
        Some(bytes) => bytes.len() as u64 <= u64::MAX,
        None => true,
    }
}

} // verus!
