//! Transfer planner: flattens the pasted sources into one entry per file.
//!
//! A file source contributes a single entry named after itself.  A
//! directory source contributes one entry per contained file, with the
//! directory's own name kept as a path prefix so the destination mirrors
//! the source's folder structure; the directories themselves are not
//! materialised.  Cancellation is checked once per visited entry: a stale
//! request yields an empty, already-cancelled plan, never a partial one.

use vstd::prelude::*;
use vstd::string::StringExecFns;

use crate::cancel::CancelToken;
use crate::strutil::{after_last_sep, file_name_of, join_path, rel_under, strip_path_prefix};

verus! {

/// One unit of a transfer: source path, path relative to the destination
/// root, and byte size.
pub struct PlanEntry {
    pub src: String,
    pub rel: String,
    pub size: u64,
}

/// The data of a plan entry.
pub type PlanEntryData = (Seq<char>, Seq<char>, u64);

/// The data a plan entry carries.
pub open spec fn plan_entry_data(e: PlanEntry) -> PlanEntryData {
    (e.src@, e.rel@, e.size)
}

/// The data a sequence of plan entries carries, in order.
pub open spec fn entry_data_seq(s: Seq<PlanEntry>) -> Seq<PlanEntryData> {
    s.map_values(|e: PlanEntry| plan_entry_data(e))
}

/// One file found while walking a directory source.
pub struct WalkedFile {
    /// Absolute path.
    pub path: String,
    /// Byte size.
    pub size: u64,
}

/// One pasted source, as probed and (for directories) recursively walked.
pub enum SourceListing {
    /// A plain file.
    File { path: String, size: u64 },
    /// A directory and every file inside it, in walk order.
    Dir { path: String, files: Vec<WalkedFile> },
}

/// The name a path contributes to relative destinations: its last
/// component, or `"unknown"` when it has none.
pub open spec fn own_name(path: Seq<char>) -> Seq<char> {
    if after_last_sep(path).len() == 0 {
        "unknown"@
    } else {
        after_last_sep(path)
    }
}

/// Relative destination of a file found under a directory root: the root's
/// own name joined with the file's path inside the root.
pub open spec fn rel_in_dir(root: Seq<char>, fpath: Seq<char>) -> Seq<char> {
    let inner = match rel_under(fpath, root) {
        Some(r) => r,
        None => "unknown"@,
    };
    own_name(root) + seq!['/'] + inner
}

/// The plan data of one walked file.
pub open spec fn walked_data(root: Seq<char>, f: WalkedFile) -> PlanEntryData {
    (f.path@, rel_in_dir(root, f.path@), f.size)
}

/// The plan data of a walked directory.
pub open spec fn dir_entries(root: Seq<char>, files: Seq<WalkedFile>) -> Seq<PlanEntryData> {
    files.map_values(|f: WalkedFile| walked_data(root, f))
}

/// The entries one source contributes to the plan.
pub open spec fn entries_of_source(s: SourceListing) -> Seq<PlanEntryData> {
    match s {
        SourceListing::File { path, size } => seq![(path@, own_name(path@), size)],
        SourceListing::Dir { path, files } => dir_entries(path@, files@),
    }
}

/// The contributions of each source, in order.
pub open spec fn source_entry_seq(sources: Seq<SourceListing>) -> Seq<Seq<PlanEntryData>> {
    sources.map_values(|s: SourceListing| entries_of_source(s))
}

/// The full plan, in source order.
pub open spec fn plan_of(sources: Seq<SourceListing>) -> Seq<PlanEntryData> {
    source_entry_seq(sources).flatten()
}

/// Sum of the sizes of a plan.
pub open spec fn total_of(entries: Seq<PlanEntryData>) -> int
    decreases entries.len(),
{
    if entries.len() == 0 {
        0
    } else {
        total_of(entries.drop_last()) + entries.last().2
    }
}

/// Size additivity along concatenation.
pub proof fn lemma_total_of_concat(a: Seq<PlanEntryData>, b: Seq<PlanEntryData>)
    ensures
        total_of(a + b) == total_of(a) + total_of(b),
    decreases b.len(),
{
    if b.len() == 0 {
        assert(a + b =~= a);
    } else {
        lemma_total_of_concat(a, b.drop_last());
        assert((a + b).drop_last() =~= a + b.drop_last());
        assert((a + b).last() == b.last());
    }
}

proof fn lemma_total_push(s: Seq<PlanEntryData>, e: PlanEntryData)
    ensures
        total_of(s.push(e)) == total_of(s) + e.2,
{
    assert(s.push(e).drop_last() =~= s);
    assert(s.push(e).last() == e);
}

proof fn lemma_plan_of_push(sources: Seq<SourceListing>, i: int)
    requires
        0 <= i < sources.len(),
    ensures
        plan_of(sources.take(i + 1)) == plan_of(sources.take(i)) + entries_of_source(sources[i]),
{
    let done = sources.take(i);
    let next = sources.take(i + 1);
    assert(source_entry_seq(next) =~= source_entry_seq(done).push(entries_of_source(sources[i])));
    source_entry_seq(done).lemma_flatten_push(entries_of_source(sources[i]));
}

proof fn lemma_entry_data_push(s: Seq<PlanEntry>, e: PlanEntry)
    ensures
        entry_data_seq(s.push(e)) == entry_data_seq(s).push(plan_entry_data(e)),
{
    assert(entry_data_seq(s.push(e)) =~= entry_data_seq(s).push(plan_entry_data(e)));
}

proof fn lemma_dir_entries_push(root: Seq<char>, files: Seq<WalkedFile>, j: int)
    requires
        0 <= j < files.len(),
    ensures
        dir_entries(root, files.take(j + 1)) == dir_entries(root, files.take(j)).push(
            walked_data(root, files[j]),
        ),
{
    assert(dir_entries(root, files.take(j + 1)) =~= dir_entries(root, files.take(j)).push(
        walked_data(root, files[j]),
    ));
}

/// The result of planning: the flat entry list, the byte total, and
/// whether the plan was abandoned because the request went stale.
pub struct TransferPlan {
    pub entries: Vec<PlanEntry>,
    pub total_bytes: u64,
    pub cancelled: bool,
}

impl TransferPlan {
    /// The data the entries carry, in order.
    pub open spec fn entry_data(self) -> Seq<PlanEntryData> {
        entry_data_seq(self.entries@)
    }
}

/// Build the transfer plan for the given sources.  The total is the sum of
/// all individual file sizes (saturating at the machine limit, which the
/// sum of real file sizes does not reach).
pub fn plan_transfer(sources: &Vec<SourceListing>, token: &CancelToken, request_id: u64) -> (r:
    TransferPlan)
    ensures
        r.cancelled == token.spec_is_stale(request_id),
        r.cancelled ==> r.entries@.len() == 0 && r.total_bytes == 0,
        !r.cancelled ==> {
            &&& r.entry_data() == plan_of(sources@)
            &&& total_of(plan_of(sources@)) <= u64::MAX ==> r.total_bytes == total_of(
                plan_of(sources@),
            )
            &&& total_of(plan_of(sources@)) > u64::MAX ==> r.total_bytes == u64::MAX
        },
{
    if token.is_stale(request_id) {
        return TransferPlan { entries: Vec::new(), total_bytes: 0, cancelled: true };
    }
    let mut entries: Vec<PlanEntry> = Vec::new();
    let mut total: u64 = 0;
    proof {
        assert(entry_data_seq(entries@) =~= plan_of(sources@.take(0)));
    }
    let mut i: usize = 0;
    while i < sources.len()
        invariant
            i <= sources@.len(),
            entry_data_seq(entries@) == plan_of(sources@.take(i as int)),
            total_of(entry_data_seq(entries@)) <= u64::MAX ==> total == total_of(
                entry_data_seq(entries@),
            ),
            total_of(entry_data_seq(entries@)) > u64::MAX ==> total == u64::MAX,
            total_of(entry_data_seq(entries@)) >= total,
        decreases sources@.len() - i,
    {
        let ghost plan_done = entry_data_seq(entries@);
        match &sources[i] {
            SourceListing::File { path, size } => {
                let name = file_name_of(path.as_str());
                let rel = if name.unicode_len() == 0 {
                    String::from_str("unknown")
                } else {
                    name
                };
                let src = path.clone();
                let sz = *size;
                let ghost pre = entries@;
                entries.push(PlanEntry { src, rel, size: sz });
                proof {
                    lemma_entry_data_push(pre, entries@.last());
                    assert(plan_entry_data(entries@.last()) == (
                        path@,
                        own_name(path@),
                        sz,
                    ));
                    assert(entry_data_seq(entries@) =~= plan_done + entries_of_source(
                        sources@[i as int],
                    ));
                    lemma_total_push(plan_done, plan_entry_data(entries@.last()));
                }
                total = add_saturating(total, sz);
            },
            SourceListing::Dir { path, files } => {
                let root_name = {
                    let name = file_name_of(path.as_str());
                    if name.unicode_len() == 0 {
                        String::from_str("unknown")
                    } else {
                        name
                    }
                };
                proof {
                    assert(dir_entries(path@, files@.take(0)) =~= Seq::<PlanEntryData>::empty());
                    assert(entry_data_seq(entries@) =~= plan_done + dir_entries(
                        path@,
                        files@.take(0),
                    ));
                }
                let mut j: usize = 0;
                while j < files.len()
                    invariant
                        j <= files@.len(),
                        root_name@ == own_name(path@),
                        entry_data_seq(entries@) == plan_done + dir_entries(
                            path@,
                            files@.take(j as int),
                        ),
                        total_of(entry_data_seq(entries@)) <= u64::MAX ==> total == total_of(
                            entry_data_seq(entries@),
                        ),
                        total_of(entry_data_seq(entries@)) > u64::MAX ==> total == u64::MAX,
                        total_of(entry_data_seq(entries@)) >= total,
                    decreases files@.len() - j,
                {
                    let f = &files[j];
                    let inner = match strip_path_prefix(f.path.as_str(), path.as_str()) {
                        Some(r) => r,
                        None => String::from_str("unknown"),
                    };
                    let rel = join_path(root_name.as_str(), inner.as_str());
                    let src = f.path.clone();
                    let sz = f.size;
                    let ghost pre = entries@;
                    entries.push(PlanEntry { src, rel, size: sz });
                    proof {
                        lemma_entry_data_push(pre, entries@.last());
                        assert(plan_entry_data(entries@.last()) == walked_data(
                            path@,
                            files@[j as int],
                        ));
                        lemma_dir_entries_push(path@, files@, j as int);
                        assert(entry_data_seq(entries@) =~= plan_done + dir_entries(
                            path@,
                            files@.take(j + 1),
                        ));
                        lemma_total_push(entry_data_seq(pre), plan_entry_data(entries@.last()));
                    }
                    total = add_saturating(total, sz);
                    j = j + 1;
                }
                proof {
                    assert(files@.take(files@.len() as int) =~= files@);
                    assert(entry_data_seq(entries@) =~= plan_done + entries_of_source(
                        sources@[i as int],
                    ));
                }
            },
        }
        proof {
            lemma_plan_of_push(sources@, i as int);
        }
        i = i + 1;
    }
    proof {
        assert(sources@.take(sources@.len() as int) =~= sources@);
    }
    TransferPlan { entries, total_bytes: total, cancelled: false }
}

/// Add with saturation at the machine limit.
fn add_saturating(a: u64, b: u64) -> (r: u64)
    ensures
        a + b <= u64::MAX ==> r == a + b,
        a + b > u64::MAX ==> r == u64::MAX,
{
    if a <= u64::MAX - b {
        a + b
    } else {
        u64::MAX
    }
}

} // verus!
