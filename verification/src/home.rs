//! The recency cache behind the virtual "Home" view: recently opened
//! files, recently visited directories, and pinned items.
//!
//! Pushing an access deduplicates by path, puts the newest entry first,
//! and caps each list.  The Home view streams these cached items with the
//! same phase structure as a real directory.

use vstd::prelude::*;
use std::collections::VecDeque;

use crate::nav::FileItem;
use crate::strutil::{after_last_dot, file_type_of, str_eq};

verus! {

broadcast use vstd::std_specs::vecdeque::axiom_spec_len;

/// Most recently opened files kept in the recency list.
pub const MAX_RECENT_FILES: usize = 50;

/// Most recently visited directories kept in the recency list.
pub const MAX_RECENT_DIRS: usize = 12;

/// The persisted recency lists.
pub struct HomeCache {
    /// Most recent first.
    pub recent_files: VecDeque<FileItem>,
    /// Most recent first.
    pub recent_dirs: VecDeque<FileItem>,
    /// Pinned by the user; order is the user's.
    pub pinned_items: Vec<FileItem>,
}

/// The entries of `s` whose path differs from `p`, in order.
pub open spec fn keep_others(s: Seq<FileItem>, p: Seq<char>) -> Seq<FileItem>
    decreases s.len(),
{
    if s.len() == 0 {
        s
    } else if s.last().path@ == p {
        keep_others(s.drop_last(), p)
    } else {
        keep_others(s.drop_last(), p).push(s.last())
    }
}

/// A sequence capped to at most `max` entries, dropping from the back.
pub open spec fn capped(s: Seq<FileItem>, max: int) -> Seq<FileItem> {
    if s.len() <= max {
        s
    } else {
        s.take(max)
    }
}

proof fn lemma_keep_others_push(s: Seq<FileItem>, p: Seq<char>, x: FileItem)
    ensures
        keep_others(s.push(x), p) == if x.path@ == p {
            keep_others(s, p)
        } else {
            keep_others(s, p).push(x)
        },
{
    assert(s.push(x).drop_last() =~= s);
    assert(s.push(x).last() == x);
}

/// Push one access to the front of a recency list: drop every older entry
/// with the same path, then cap the length.
fn push_recent(dq: &mut VecDeque<FileItem>, item: FileItem, max: usize)
    requires
        max >= 1,
    ensures
        final(dq)@ == capped(seq![item] + keep_others(old(dq)@, item.path@), max as int),
{
    let ghost p = item.path@;
    let ghost source = dq@;
    let mut out: VecDeque<FileItem> = VecDeque::new();
    let probe = item.path.clone();
    out.push_back(item);
    proof {
        assert(out@ =~= seq![item] + keep_others(source.take(0), p));
        assert(source.take(0) =~= Seq::<FileItem>::empty());
    }
    let ghost total = source.len();
    proof {
        vstd::std_specs::vecdeque::axiom_spec_len(dq);
        assert(total <= usize::MAX);
    }
    let mut consumed: usize = 0;
    while dq.len() > 0
        invariant
            total == source.len(),
            total <= usize::MAX,
            consumed <= total,
            dq@ == source.skip(consumed as int),
            probe@ == p,
            out@ == seq![item] + keep_others(source.take(consumed as int), p),
        decreases total - consumed,
    {
        proof {
            assert(source.skip(consumed as int).len() > 0);
            assert(consumed < total);
        }
        let next = match dq.pop_front() {
            Some(x) => x,
            None => {
                proof {
                    assert(false);
                }
                return ;
            },
        };
        proof {
            assert(source.skip(consumed as int)[0] == source[consumed as int]);
            assert(source.skip(consumed as int).subrange(
                1,
                source.skip(consumed as int).len() as int,
            ) =~= source.skip(consumed + 1));
            lemma_keep_others_push(source.take(consumed as int), p, source[consumed as int]);
            assert(source.take(consumed as int).push(source[consumed as int]) =~= source.take(
                consumed + 1,
            ));
        }
        if !str_eq(next.path.as_str(), probe.as_str()) {
            out.push_back(next);
        }
        consumed = consumed + 1;
    }
    proof {
        assert(source.skip(consumed as int).len() == 0);
        assert(consumed == total);
        assert(source.take(total as int) =~= source);
    }
    let ghost full = out@;
    while out.len() > max
        invariant
            out@ == full.take(
                if out@.len() <= full.len() {
                    out@.len() as int
                } else {
                    full.len() as int
                },
            ),
            out@.len() >= max || out@.len() >= full.len(),
        decreases out@.len(),
    {
        let ghost pre = out@;
        let _ = out.pop_back();
        proof {
            assert(out@ =~= pre.subrange(0, pre.len() - 1));
            assert(full.take(pre.len() as int).subrange(0, pre.len() - 1) =~= full.take(
                pre.len() - 1,
            ));
        }
    }
    proof {
        if full.len() <= max {
            assert(out@.len() >= full.len());
            assert(out@.len() <= full.len());
            assert(full.take(full.len() as int) =~= full);
        }
    }
    *dq = out;
}

impl HomeCache {
    /// An empty recency cache.
    pub fn new() -> (r: Self)
        ensures
            r.recent_files@.len() == 0,
            r.recent_dirs@.len() == 0,
            r.pinned_items@.len() == 0,
    {
        HomeCache {
            recent_files: VecDeque::new(),
            recent_dirs: VecDeque::new(),
            pinned_items: Vec::new(),
        }
    }

    /// Record a file access: newest first, deduplicated by path, at most
    /// `MAX_RECENT_FILES` entries.
    pub fn push_recent_file(&mut self, item: FileItem)
        ensures
            final(self).recent_files@ == capped(
                seq![item] + keep_others(old(self).recent_files@, item.path@),
                MAX_RECENT_FILES as int,
            ),
            final(self).recent_dirs == old(self).recent_dirs,
            final(self).pinned_items == old(self).pinned_items,
    {
        push_recent(&mut self.recent_files, item, MAX_RECENT_FILES);
    }

    /// Record a directory access: newest first, deduplicated by path, at
    /// most `MAX_RECENT_DIRS` entries.
    pub fn push_recent_dir(&mut self, item: FileItem)
        ensures
            final(self).recent_dirs@ == capped(
                seq![item] + keep_others(old(self).recent_dirs@, item.path@),
                MAX_RECENT_DIRS as int,
            ),
            final(self).recent_files == old(self).recent_files,
            final(self).pinned_items == old(self).pinned_items,
    {
        push_recent(&mut self.recent_dirs, item, MAX_RECENT_DIRS);
    }
}

/// One entry of the Home view's phase-1 emission.
pub struct HomeEntry {
    pub name: String,
    pub path: String,
    pub is_dir: bool,
    pub size: Option<u64>,
    /// Loose type tag: the text after the name's last dot.
    pub filetype: String,
    pub pinned: bool,
}

/// The data a home entry carries.
pub open spec fn home_entry_data(e: HomeEntry) -> (Seq<char>, Seq<char>, bool, Option<u64>, Seq<
    char,
>, bool) {
    (e.name@, e.path@, e.is_dir, e.size, e.filetype@, e.pinned)
}

impl Clone for HomeEntry {
    /// A copy carrying the same data.
    fn clone(&self) -> (r: Self)
        ensures
            home_entry_data(r) == home_entry_data(*self),
    {
        HomeEntry {
            name: self.name.clone(),
            path: self.path.clone(),
            is_dir: self.is_dir,
            size: self.size,
            filetype: self.filetype.clone(),
            pinned: self.pinned,
        }
    }
}

/// The data of a home-entry sequence.
pub open spec fn home_data_seq(s: Seq<HomeEntry>) -> Seq<
    (Seq<char>, Seq<char>, bool, Option<u64>, Seq<char>, bool),
> {
    s.map_values(|e: HomeEntry| home_entry_data(e))
}

/// What one cached item contributes to the Home emission.
pub open spec fn home_item_data(x: FileItem, is_dir: bool, pinned: bool) -> (
    Seq<char>,
    Seq<char>,
    bool,
    Option<u64>,
    Seq<char>,
    bool,
) {
    (x.name@, x.path@, is_dir, x.size, after_last_dot(x.name@), pinned)
}

/// The contribution of one cached list.
pub open spec fn home_part(items: Seq<FileItem>, is_dir: bool, pinned: bool) -> Seq<
    (Seq<char>, Seq<char>, bool, Option<u64>, Seq<char>, bool),
> {
    items.map_values(|x: FileItem| home_item_data(x, is_dir, pinned))
}

fn append_part_deque(
    out: &mut Vec<HomeEntry>,
    items: &VecDeque<FileItem>,
    is_dir: bool,
    pinned: bool,
)
    ensures
        home_data_seq(final(out)@) == home_data_seq(old(out)@) + home_part(
            items@,
            is_dir,
            pinned,
        ),
{
    let ghost base = home_data_seq(out@);
    let mut i: usize = 0;
    while i < items.len()
        invariant
            i <= items@.len(),
            home_data_seq(out@) == base + home_part(items@.take(i as int), is_dir, pinned),
        decreases items@.len() - i,
    {
        let x = &items[i];
        let filetype = file_type_of(x.name.as_str());
        let ghost pre = out@;
        out.push(
            HomeEntry {
                name: x.name.clone(),
                path: x.path.clone(),
                is_dir,
                size: x.size,
                filetype,
                pinned,
            },
        );
        proof {
            assert(home_data_seq(out@) =~= home_data_seq(pre).push(home_entry_data(out@.last())));
            assert(home_entry_data(out@.last()) == home_item_data(
                items@[i as int],
                is_dir,
                pinned,
            ));
            assert(home_part(items@.take(i + 1), is_dir, pinned) =~= home_part(
                items@.take(i as int),
                is_dir,
                pinned,
            ).push(home_item_data(items@[i as int], is_dir, pinned)));
        }
        i = i + 1;
    }
    proof {
        assert(items@.take(items@.len() as int) =~= items@);
    }
}

fn append_part_vec(out: &mut Vec<HomeEntry>, items: &Vec<FileItem>, is_dir: bool, pinned: bool)
    ensures
        home_data_seq(final(out)@) == home_data_seq(old(out)@) + home_part(
            items@,
            is_dir,
            pinned,
        ),
{
    let ghost base = home_data_seq(out@);
    let mut i: usize = 0;
    while i < items.len()
        invariant
            i <= items@.len(),
            home_data_seq(out@) == base + home_part(items@.take(i as int), is_dir, pinned),
        decreases items@.len() - i,
    {
        let x = &items[i];
        let filetype = file_type_of(x.name.as_str());
        let ghost pre = out@;
        out.push(
            HomeEntry {
                name: x.name.clone(),
                path: x.path.clone(),
                is_dir,
                size: x.size,
                filetype,
                pinned,
            },
        );
        proof {
            assert(home_data_seq(out@) =~= home_data_seq(pre).push(home_entry_data(out@.last())));
            assert(home_entry_data(out@.last()) == home_item_data(
                items@[i as int],
                is_dir,
                pinned,
            ));
            assert(home_part(items@.take(i + 1), is_dir, pinned) =~= home_part(
                items@.take(i as int),
                is_dir,
                pinned,
            ).push(home_item_data(items@[i as int], is_dir, pinned)));
        }
        i = i + 1;
    }
    proof {
        assert(items@.take(items@.len() as int) =~= items@);
    }
}

/// The Home view's phase-1 entries, in emission order: recent files, then
/// recent directories, then pinned items.
pub fn home_snapshot(cache: &HomeCache) -> (r: Vec<HomeEntry>)
    ensures
        home_data_seq(r@) == home_part(cache.recent_files@, false, false) + home_part(
            cache.recent_dirs@,
            true,
            false,
        ) + home_part(cache.pinned_items@, false, true),
{
    let mut out: Vec<HomeEntry> = Vec::new();
    proof {
        assert(home_data_seq(out@) =~= Seq::empty());
    }
    append_part_deque(&mut out, &cache.recent_files, false, false);
    append_part_deque(&mut out, &cache.recent_dirs, true, false);
    append_part_vec(&mut out, &cache.pinned_items, false, true);
    proof {
        assert(Seq::empty() + home_part(cache.recent_files@, false, false) =~= home_part(
            cache.recent_files@,
            false,
            false,
        ));
    }
    out
}

} // verus!
