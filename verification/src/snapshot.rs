//! Directory snapshot records and their deterministic sort order.
//!
//! A snapshot is one level of a directory read, one record per entry.  The
//! sort contract puts directories strictly before files and breaks ties by
//! the requested secondary key; the ascending flag applies to the secondary
//! key only.  Names and file types compare case-insensitively.

use vstd::prelude::*;

use crate::layouts::SortKey;
use crate::strutil::{
    lemma_lex_le_total, lemma_lex_le_trans, lex_le, lower_of, lowercase, str_lex_le,
};

verus! {

broadcast use vstd::seq_lib::group_to_multiset_ensures;

/// One directory entry as captured by a snapshot: never mutated afterwards.
pub struct EntryMeta {
    /// Display name (the last path component).
    pub name: String,
    /// Absolute path.
    pub path: String,
    /// Whether the entry is a directory.
    pub is_dir: bool,
    /// Byte size; absent for directories.
    pub size: Option<u64>,
    /// File type, derived from the extension; empty when there is none.
    pub filetype: String,
    /// Last-modified time in seconds since the epoch, when known.
    pub modified: Option<u64>,
}

/// Record equivalence: two entries carrying the same data.
pub open spec fn entry_eqv(a: EntryMeta, b: EntryMeta) -> bool {
    &&& a.name@ == b.name@
    &&& a.path@ == b.path@
    &&& a.is_dir == b.is_dir
    &&& a.size == b.size
    &&& a.filetype@ == b.filetype@
    &&& a.modified == b.modified
}

impl Clone for EntryMeta {
    /// A copy carrying the same data.
    fn clone(&self) -> (r: Self)
        ensures
            entry_eqv(r, *self),
    {
        EntryMeta {
            name: self.name.clone(),
            path: self.path.clone(),
            is_dir: self.is_dir,
            size: self.size,
            filetype: self.filetype.clone(),
            modified: self.modified,
        }
    }
}

/// Order on optional numbers: absent sorts before present.
pub open spec fn opt_le(a: Option<u64>, b: Option<u64>) -> bool {
    match (a, b) {
        (Option::None, _) => true,
        (Option::Some(_), Option::None) => false,
        (Option::Some(x), Option::Some(y)) => x <= y,
    }
}

/// Secondary comparison under one sort key, ascending.
pub open spec fn sec_le(k: SortKey, a: EntryMeta, b: EntryMeta) -> bool {
    match k {
        SortKey::Name => lex_le(lower_of(a.name@), lower_of(b.name@)),
        SortKey::Size => opt_le(a.size, b.size),
        SortKey::Filetype => lex_le(lower_of(a.filetype@), lower_of(b.filetype@)),
        SortKey::DateModified => opt_le(a.modified, b.modified),
    }
}

/// The full snapshot order: directories strictly before files, then the
/// secondary key, reversed when descending.
pub open spec fn entry_le(k: SortKey, asc: bool, a: EntryMeta, b: EntryMeta) -> bool {
    if a.is_dir != b.is_dir {
        a.is_dir
    } else if asc {
        sec_le(k, a, b)
    } else {
        sec_le(k, b, a)
    }
}

/// A sequence sorted under the snapshot order.
pub open spec fn entries_sorted(k: SortKey, asc: bool, s: Seq<EntryMeta>) -> bool {
    forall|i: int, j: int| 0 <= i < j < s.len() ==> entry_le(k, asc, s[i], s[j])
}

pub proof fn lemma_sec_le_total(k: SortKey, a: EntryMeta, b: EntryMeta)
    ensures
        sec_le(k, a, b) || sec_le(k, b, a),
{
    match k {
        SortKey::Name => lemma_lex_le_total(lower_of(a.name@), lower_of(b.name@)),
        SortKey::Size => (),
        SortKey::Filetype => lemma_lex_le_total(lower_of(a.filetype@), lower_of(b.filetype@)),
        SortKey::DateModified => (),
    }
}

pub proof fn lemma_sec_le_trans(k: SortKey, a: EntryMeta, b: EntryMeta, c: EntryMeta)
    requires
        sec_le(k, a, b),
        sec_le(k, b, c),
    ensures
        sec_le(k, a, c),
{
    match k {
        SortKey::Name => lemma_lex_le_trans(
            lower_of(a.name@),
            lower_of(b.name@),
            lower_of(c.name@),
        ),
        SortKey::Size => (),
        SortKey::Filetype => lemma_lex_le_trans(
            lower_of(a.filetype@),
            lower_of(b.filetype@),
            lower_of(c.filetype@),
        ),
        SortKey::DateModified => (),
    }
}

pub proof fn lemma_entry_le_total(k: SortKey, asc: bool, a: EntryMeta, b: EntryMeta)
    ensures
        entry_le(k, asc, a, b) || entry_le(k, asc, b, a),
{
    if a.is_dir == b.is_dir {
        lemma_sec_le_total(k, a, b);
    }
}

pub proof fn lemma_entry_le_trans(k: SortKey, asc: bool, a: EntryMeta, b: EntryMeta, c: EntryMeta)
    requires
        entry_le(k, asc, a, b),
        entry_le(k, asc, b, c),
    ensures
        entry_le(k, asc, a, c),
{
    if a.is_dir == b.is_dir && b.is_dir == c.is_dir {
        if asc {
            lemma_sec_le_trans(k, a, b, c);
        } else {
            lemma_sec_le_trans(k, c, b, a);
        }
    }
}

/// Compare two entries under the snapshot order.
pub fn entry_le_exec(k: SortKey, asc: bool, a: &EntryMeta, b: &EntryMeta) -> (r: bool)
    ensures
        r == entry_le(k, asc, *a, *b),
{
    if a.is_dir != b.is_dir {
        return a.is_dir;
    }
    let (x, y) = if asc {
        (a, b)
    } else {
        (b, a)
    };
    match k {
        SortKey::Name => {
            let lx = lowercase(x.name.as_str());
            let ly = lowercase(y.name.as_str());
            str_lex_le(lx.as_str(), ly.as_str())
        },
        SortKey::Size => opt_le_exec(&x.size, &y.size),
        SortKey::Filetype => {
            let lx = lowercase(x.filetype.as_str());
            let ly = lowercase(y.filetype.as_str());
            str_lex_le(lx.as_str(), ly.as_str())
        },
        SortKey::DateModified => opt_le_exec(&x.modified, &y.modified),
    }
}

fn opt_le_exec(a: &Option<u64>, b: &Option<u64>) -> (r: bool)
    ensures
        r == opt_le(*a, *b),
{
    match (a, b) {
        (Option::None, _) => true,
        (Option::Some(_), Option::None) => false,
        (Option::Some(x), Option::Some(y)) => *x <= *y,
    }
}

/// Sort a snapshot in place: the result is ordered under the snapshot
/// order and holds exactly the same records.
pub fn sort_entries(v: &mut Vec<EntryMeta>, k: SortKey, asc: bool)
    ensures
        entries_sorted(k, asc, final(v)@),
        final(v)@.to_multiset() == old(v)@.to_multiset(),
        final(v)@.len() == old(v)@.len(),
{
    let ghost orig = v@;
    let mut i: usize = 1;
    while i < v.len()
        invariant
            1 <= i,
            i <= v.len() || v.len() == 0,
            v@.to_multiset() == orig.to_multiset(),
            v@.len() == orig.len(),
            forall|a: int, b: int| 0 <= a < b < i && b < v@.len() ==> entry_le(k, asc, v@[a], v@[b]),
        decreases v@.len() - i,
    {
        let mut p: usize = i;
        while p > 0 && !entry_le_exec(k, asc, &v[p - 1], &v[i])
            invariant
                0 <= p <= i < v@.len(),
                forall|a: int, b: int| 0 <= a < b < i ==> entry_le(k, asc, v@[a], v@[b]),
                forall|b: int| p <= b < i ==> entry_le(k, asc, v@[i as int], v@[b]),
            decreases p,
        {
            proof {
                lemma_entry_le_total(k, asc, v@[p - 1], v@[i as int]);
                assert forall|b: int| p - 1 <= b < i implies entry_le(
                    k,
                    asc,
                    v@[i as int],
                    v@[b],
                ) by {
                    if b > p - 1 {
                        lemma_entry_le_trans(k, asc, v@[i as int], v@[p - 1], v@[b]);
                    }
                }
            }
            p = p - 1;
        }
        proof {
            assert forall|a: int| 0 <= a < p implies entry_le(k, asc, v@[a], v@[i as int]) by {
                if a < p - 1 {
                    lemma_entry_le_trans(k, asc, v@[a], v@[p - 1], v@[i as int]);
                }
            }
        }
        let ghost pre = v@;
        let x = v.remove(i);
        v.insert(p, x);
        proof {
            let post = v@;
            assert(post =~= pre.remove(i as int).insert(p as int, pre[i as int]));
            assert(post.to_multiset() == orig.to_multiset()) by {
                assert(pre.remove(i as int).to_multiset() == pre.to_multiset().remove(
                    pre[i as int],
                ));
                assert(post.to_multiset() == pre.remove(i as int).to_multiset().insert(
                    pre[i as int],
                ));
                assert(pre.to_multiset().count(pre[i as int]) > 0);
                assert(pre.to_multiset().remove(pre[i as int]).insert(pre[i as int])
                    =~= pre.to_multiset());
            }
            assert forall|a: int, b: int|
                0 <= a < b < i + 1 && b < post.len() implies entry_le(
                k,
                asc,
                post[a],
                post[b],
            ) by {
                assert(forall|t: int| 0 <= t < p ==> post[t] == pre[t]);
                assert(post[p as int] == pre[i as int]);
                assert(forall|t: int| p < t <= i ==> post[t] == pre[t - 1]);
            }
        }
        i = i + 1;
    }
}

/// A hidden entry: its name starts with a dot.
pub open spec fn is_hidden_name(n: Seq<char>) -> bool {
    n.len() > 0 && n[0] == '.'
}

/// The entries a snapshot keeps: all of them when hidden entries are
/// requested, otherwise only the unhidden ones, in order.
pub open spec fn visible_of(s: Seq<EntryMeta>, show_hidden: bool) -> Seq<EntryMeta>
    decreases s.len(),
{
    if s.len() == 0 {
        s
    } else if show_hidden || !is_hidden_name(s.last().name@) {
        visible_of(s.drop_last(), show_hidden).push(s.last())
    } else {
        visible_of(s.drop_last(), show_hidden)
    }
}

proof fn lemma_visible_of_push(s: Seq<EntryMeta>, show_hidden: bool, x: EntryMeta)
    ensures
        visible_of(s.push(x), show_hidden) == if show_hidden || !is_hidden_name(x.name@) {
            visible_of(s, show_hidden).push(x)
        } else {
            visible_of(s, show_hidden)
        },
{
    assert(s.push(x).drop_last() =~= s);
    assert(s.push(x).last() == x);
}

/// Drop hidden entries from a snapshot unless they were asked for.
pub fn filter_hidden(v: Vec<EntryMeta>, show_hidden: bool) -> (r: Vec<EntryMeta>)
    ensures
        r@ == visible_of(v@, show_hidden),
{
    let ghost source = v@;
    let mut src = v;
    let mut out: Vec<EntryMeta> = Vec::new();
    proof {
        vstd::std_specs::vec::axiom_spec_len(&src);
        assert(source.take(0) =~= Seq::<EntryMeta>::empty());
    }
    let mut i: usize = 0;
    while src.len() > 0
        invariant
            i <= source.len(),
            source.len() <= usize::MAX,
            src@ == source.skip(i as int),
            out@ == visible_of(source.take(i as int), show_hidden),
        decreases src@.len(),
    {
        let x = src.remove(0);
        proof {
            assert(source.skip(i as int)[0] == source[i as int]);
            assert(source.skip(i as int).remove(0) =~= source.skip(i + 1));
            lemma_visible_of_push(source.take(i as int), show_hidden, source[i as int]);
            assert(source.take(i as int).push(source[i as int]) =~= source.take(i + 1));
        }
        let keep = if show_hidden {
            true
        } else {
            let n = x.name.as_str().unicode_len();
            !(n > 0 && x.name.as_str().get_char(0) == '.')
        };
        if keep {
            out.push(x);
        }
        i = i + 1;
    }
    proof {
        assert(source.skip(i as int).len() == 0);
        assert(source.take(i as int) =~= source);
    }
    out
}

/// What the snapshot order means, record by record: in a sorted snapshot,
/// directories stand strictly before files, and two records on the same
/// side of that divide are ordered by the requested secondary key,
/// reversed when descending.
pub proof fn lemma_snapshot_order(k: SortKey, asc: bool, s: Seq<EntryMeta>, i: int, j: int)
    requires
        entries_sorted(k, asc, s),
        0 <= i < j < s.len(),
    ensures
        s[j].is_dir ==> s[i].is_dir,
        s[i].is_dir == s[j].is_dir && asc ==> sec_le(k, s[i], s[j]),
        s[i].is_dir == s[j].is_dir && !asc ==> sec_le(k, s[j], s[i]),
{
    assert(entry_le(k, asc, s[i], s[j]));
}

} // verus!
