//! Navigation records: plain directory entries, tree nodes, and the
//! deterministic orders they are presented in.  Listing and tree views
//! sort directories first, then names case-insensitively ascending.

use vstd::prelude::*;
use vstd::string::StrSliceExecFns;
use vstd::string::StringExecFns;

use crate::strutil::{
    lemma_lex_le_total, lemma_lex_le_trans, lex_le, lower_of, lowercase, str_eq, str_lex_le,
};

verus! {

broadcast use vstd::seq_lib::group_to_multiset_ensures;

/// A single file or directory entry.
pub struct FileItem {
    pub name: String,
    pub path: String,
    pub is_dir: bool,
    /// Byte size; absent for directories.
    pub size: Option<u64>,
}

/// Two file items carrying the same data.
pub open spec fn item_eqv(a: FileItem, b: FileItem) -> bool {
    &&& a.name@ == b.name@
    &&& a.path@ == b.path@
    &&& a.is_dir == b.is_dir
    &&& a.size == b.size
}

impl Clone for FileItem {
    /// A copy carrying the same data.
    fn clone(&self) -> (r: Self)
        ensures
            item_eqv(r, *self),
    {
        FileItem {
            name: self.name.clone(),
            path: self.path.clone(),
            is_dir: self.is_dir,
            size: self.size,
        }
    }
}

/// A file entry enriched with its preview, for the recency list.
pub struct FileItemWithThumbnail {
    pub name: String,
    pub path: String,
    pub is_dir: bool,
    pub size: Option<u64>,
    /// Base64 preview text; absent when no preview could be produced.
    pub thumbnail: Option<String>,
}

/// A folder and its children, recursively.
pub struct FileNode {
    pub name: String,
    pub path: String,
    pub is_dir: bool,
    /// Present for directories; a directory not yet expanded holds an
    /// empty list.
    pub children: Option<Vec<FileNode>>,
}

/// The order of listings and tree levels: directories strictly first,
/// names case-insensitively ascending.
pub open spec fn listing_le(a_is_dir: bool, a_name: Seq<char>, b_is_dir: bool, b_name: Seq<
    char,
>) -> bool {
    if a_is_dir != b_is_dir {
        a_is_dir
    } else {
        lex_le(lower_of(a_name), lower_of(b_name))
    }
}

pub proof fn lemma_listing_le_total(ad: bool, an: Seq<char>, bd: bool, bn: Seq<char>)
    ensures
        listing_le(ad, an, bd, bn) || listing_le(bd, bn, ad, an),
{
    if ad == bd {
        lemma_lex_le_total(lower_of(an), lower_of(bn));
    }
}

pub proof fn lemma_listing_le_trans(
    ad: bool,
    an: Seq<char>,
    bd: bool,
    bn: Seq<char>,
    cd: bool,
    cn: Seq<char>,
)
    requires
        listing_le(ad, an, bd, bn),
        listing_le(bd, bn, cd, cn),
    ensures
        listing_le(ad, an, cd, cn),
{
    if ad == bd && bd == cd {
        lemma_lex_le_trans(lower_of(an), lower_of(bn), lower_of(cn));
    }
}

fn listing_le_exec(ad: bool, an: &str, bd: bool, bn: &str) -> (r: bool)
    ensures
        r == listing_le(ad, an@, bd, bn@),
{
    if ad != bd {
        ad
    } else {
        let la = lowercase(an);
        let lb = lowercase(bn);
        str_lex_le(la.as_str(), lb.as_str())
    }
}

/// A sequence of items sorted in listing order.
pub open spec fn items_sorted(s: Seq<FileItem>) -> bool {
    forall|i: int, j: int|
        0 <= i < j < s.len() ==> listing_le(s[i].is_dir, s[i].name@, s[j].is_dir, s[j].name@)
}

/// Sort a listing in place: directories first, then names
/// case-insensitively, keeping exactly the same records.
pub fn sort_file_items(v: &mut Vec<FileItem>)
    ensures
        items_sorted(final(v)@),
        final(v)@.to_multiset() == old(v)@.to_multiset(),
        final(v)@.len() == old(v)@.len(),
{
    let ghost orig = v@;
    let mut i: usize = 1;
    while i < v.len()
        invariant
            1 <= i,
            i <= v.len() || v.len() == 0,
            v@.to_multiset() == orig.to_multiset(),
            v@.len() == orig.len(),
            forall|a: int, b: int|
                0 <= a < b < i && b < v@.len() ==> listing_le(
                    v@[a].is_dir,
                    v@[a].name@,
                    v@[b].is_dir,
                    v@[b].name@,
                ),
        decreases v@.len() - i,
    {
        let mut p: usize = i;
        while p > 0 && !listing_le_exec(
            v[p - 1].is_dir,
            v[p - 1].name.as_str(),
            v[i].is_dir,
            v[i].name.as_str(),
        )
            invariant
                0 <= p <= i < v@.len(),
                forall|a: int, b: int|
                    0 <= a < b < i ==> listing_le(
                        v@[a].is_dir,
                        v@[a].name@,
                        v@[b].is_dir,
                        v@[b].name@,
                    ),
                forall|b: int|
                    p <= b < i ==> listing_le(
                        v@[i as int].is_dir,
                        v@[i as int].name@,
                        v@[b].is_dir,
                        v@[b].name@,
                    ),
            decreases p,
        {
            proof {
                lemma_listing_le_total(
                    v@[p - 1].is_dir,
                    v@[p - 1].name@,
                    v@[i as int].is_dir,
                    v@[i as int].name@,
                );
                assert forall|b: int| p - 1 <= b < i implies listing_le(
                    v@[i as int].is_dir,
                    v@[i as int].name@,
                    v@[b].is_dir,
                    v@[b].name@,
                ) by {
                    if b > p - 1 {
                        lemma_listing_le_trans(
                            v@[i as int].is_dir,
                            v@[i as int].name@,
                            v@[p - 1].is_dir,
                            v@[p - 1].name@,
                            v@[b].is_dir,
                            v@[b].name@,
                        );
                    }
                }
            }
            p = p - 1;
        }
        proof {
            assert forall|a: int| 0 <= a < p implies listing_le(
                v@[a].is_dir,
                v@[a].name@,
                v@[i as int].is_dir,
                v@[i as int].name@,
            ) by {
                if a < p - 1 {
                    lemma_listing_le_trans(
                        v@[a].is_dir,
                        v@[a].name@,
                        v@[p - 1].is_dir,
                        v@[p - 1].name@,
                        v@[i as int].is_dir,
                        v@[i as int].name@,
                    );
                }
            }
        }
        let ghost pre = v@;
        let x = v.remove(i);
        v.insert(p, x);
        proof {
            let post = v@;
            assert(post =~= pre.remove(i as int).insert(p as int, pre[i as int]));
            assert(post.to_multiset() == orig.to_multiset()) by {
                assert(pre.remove(i as int).to_multiset() == pre.to_multiset().remove(
                    pre[i as int],
                ));
                assert(post.to_multiset() == pre.remove(i as int).to_multiset().insert(
                    pre[i as int],
                ));
                assert(pre.to_multiset().count(pre[i as int]) > 0);
                assert(pre.to_multiset().remove(pre[i as int]).insert(pre[i as int])
                    =~= pre.to_multiset());
            }
            assert forall|a: int, b: int|
                0 <= a < b < i + 1 && b < post.len() implies listing_le(
                post[a].is_dir,
                post[a].name@,
                post[b].is_dir,
                post[b].name@,
            ) by {
                assert(forall|t: int| 0 <= t < p ==> post[t] == pre[t]);
                assert(post[p as int] == pre[i as int]);
                assert(forall|t: int| p < t <= i ==> post[t] == pre[t - 1]);
            }
        }
        i = i + 1;
    }
}

/// Sort one tree level in place, under the same listing order.
pub fn sort_nodes(v: &mut Vec<FileNode>)
    ensures
        forall|i: int, j: int|
            0 <= i < j < final(v)@.len() ==> listing_le(
                final(v)@[i].is_dir,
                final(v)@[i].name@,
                final(v)@[j].is_dir,
                final(v)@[j].name@,
            ),
        final(v)@.to_multiset() == old(v)@.to_multiset(),
        final(v)@.len() == old(v)@.len(),
{
    let ghost orig = v@;
    let mut i: usize = 1;
    while i < v.len()
        invariant
            1 <= i,
            i <= v.len() || v.len() == 0,
            v@.to_multiset() == orig.to_multiset(),
            v@.len() == orig.len(),
            forall|a: int, b: int|
                0 <= a < b < i && b < v@.len() ==> listing_le(
                    v@[a].is_dir,
                    v@[a].name@,
                    v@[b].is_dir,
                    v@[b].name@,
                ),
        decreases v@.len() - i,
    {
        let mut p: usize = i;
        while p > 0 && !listing_le_exec(
            v[p - 1].is_dir,
            v[p - 1].name.as_str(),
            v[i].is_dir,
            v[i].name.as_str(),
        )
            invariant
                0 <= p <= i < v@.len(),
                forall|a: int, b: int|
                    0 <= a < b < i ==> listing_le(
                        v@[a].is_dir,
                        v@[a].name@,
                        v@[b].is_dir,
                        v@[b].name@,
                    ),
                forall|b: int|
                    p <= b < i ==> listing_le(
                        v@[i as int].is_dir,
                        v@[i as int].name@,
                        v@[b].is_dir,
                        v@[b].name@,
                    ),
            decreases p,
        {
            proof {
                lemma_listing_le_total(
                    v@[p - 1].is_dir,
                    v@[p - 1].name@,
                    v@[i as int].is_dir,
                    v@[i as int].name@,
                );
                assert forall|b: int| p - 1 <= b < i implies listing_le(
                    v@[i as int].is_dir,
                    v@[i as int].name@,
                    v@[b].is_dir,
                    v@[b].name@,
                ) by {
                    if b > p - 1 {
                        lemma_listing_le_trans(
                            v@[i as int].is_dir,
                            v@[i as int].name@,
                            v@[p - 1].is_dir,
                            v@[p - 1].name@,
                            v@[b].is_dir,
                            v@[b].name@,
                        );
                    }
                }
            }
            p = p - 1;
        }
        proof {
            assert forall|a: int| 0 <= a < p implies listing_le(
                v@[a].is_dir,
                v@[a].name@,
                v@[i as int].is_dir,
                v@[i as int].name@,
            ) by {
                if a < p - 1 {
                    lemma_listing_le_trans(
                        v@[a].is_dir,
                        v@[a].name@,
                        v@[p - 1].is_dir,
                        v@[p - 1].name@,
                        v@[i as int].is_dir,
                        v@[i as int].name@,
                    );
                }
            }
        }
        let ghost pre = v@;
        let x = v.remove(i);
        v.insert(p, x);
        proof {
            let post = v@;
            assert(post =~= pre.remove(i as int).insert(p as int, pre[i as int]));
            assert(post.to_multiset() == orig.to_multiset()) by {
                assert(pre.remove(i as int).to_multiset() == pre.to_multiset().remove(
                    pre[i as int],
                ));
                assert(post.to_multiset() == pre.remove(i as int).to_multiset().insert(
                    pre[i as int],
                ));
                assert(pre.to_multiset().count(pre[i as int]) > 0);
                assert(pre.to_multiset().remove(pre[i as int]).insert(pre[i as int])
                    =~= pre.to_multiset());
            }
            assert forall|a: int, b: int|
                0 <= a < b < i + 1 && b < post.len() implies listing_le(
                post[a].is_dir,
                post[a].name@,
                post[b].is_dir,
                post[b].name@,
            ) by {
                assert(forall|t: int| 0 <= t < p ==> post[t] == pre[t]);
                assert(post[p as int] == pre[i as int]);
                assert(forall|t: int| p < t <= i ==> post[t] == pre[t - 1]);
            }
        }
        i = i + 1;
    }
}

/// The index of the child whose name case-folds equal to `name`, if any
/// does: how a tree descent picks the branch to expand.
pub fn find_child_folded(nodes: &Vec<FileNode>, name: &str) -> (r: Option<usize>)
    ensures
        match r {
            Some(i) => i < nodes@.len() && lower_of(nodes@[i as int].name@) == lower_of(name@)
                && forall|k: int| 0 <= k < i ==> lower_of(nodes@[k].name@) != lower_of(name@),
            None => forall|k: int|
                0 <= k < nodes@.len() ==> lower_of(nodes@[k].name@) != lower_of(name@),
        },
{
    let target = lowercase(name);
    let mut i: usize = 0;
    while i < nodes.len()
        invariant
            i <= nodes@.len(),
            target@ == lower_of(name@),
            forall|k: int| 0 <= k < i ==> lower_of(nodes@[k].name@) != lower_of(name@),
        decreases nodes@.len() - i,
    {
        let folded = lowercase(nodes[i].name.as_str());
        if str_eq(folded.as_str(), target.as_str()) {
            return Some(i);
        }
        i = i + 1;
    }
    None
}

/// What normalising a requested path yields: an empty request falls back
/// to the platform root; on the native-backslash platform a bare drive
/// like `C:` gains its slash and forward slashes become backslashes.
pub open spec fn normalized_path(s: Seq<char>, backslash_native: bool) -> Seq<char> {
    if s.len() == 0 {
        if backslash_native {
            "C:\\"@
        } else {
            "/"@
        }
    } else if backslash_native {
        let with_slash = if s[s.len() - 1] == ':' {
            s.push('\\')
        } else {
            s
        };
        Seq::new(
            with_slash.len(),
            |i: int|
                if with_slash[i] == '/' {
                    '\\'
                } else {
                    with_slash[i]
                },
        )
    } else {
        s
    }
}

/// Normalise a requested path for the platform.
pub fn normalize_target_path(path: &str, backslash_native: bool) -> (r: String)
    ensures
        r@ == normalized_path(path@, backslash_native),
{
    let n = path.unicode_len();
    if n == 0 {
        return if backslash_native {
            String::from_str("C:\\")
        } else {
            String::from_str("/")
        };
    }
    if !backslash_native {
        return String::from_str(path);
    }
    let mut base = String::from_str(path);
    if path.get_char(n - 1) == ':' {
        proof {
            reveal_strlit("\\");
        }
        base.append("\\");
        assert(base@ =~= path@.push('\\'));
    }
    let ghost with_slash = base@;
    let m = base.unicode_len();
    let mut out = String::new();
    let mut i: usize = 0;
    while i < m
        invariant
            i <= m,
            m == with_slash.len(),
            base@ == with_slash,
            out@ =~= Seq::new(
                i as nat,
                |k: int|
                    if with_slash[k] == '/' {
                        '\\'
                    } else {
                        with_slash[k]
                    },
            ),
        decreases m - i,
    {
        let c = base.as_str().get_char(i);
        if c == '/' {
            proof {
                reveal_strlit("\\");
            }
            out.append("\\");
        } else {
            let piece = base.as_str().substring_char(i, i + 1);
            out.append(piece);
        }
        proof {
            assert(out@ =~= Seq::new(
                (i + 1) as nat,
                |k: int|
                    if with_slash[k] == '/' {
                        '\\'
                    } else {
                        with_slash[k]
                    },
            ));
        }
        i = i + 1;
    }
    proof {
        assert(out@ =~= normalized_path(path@, backslash_native));
    }
    out
}

} // verus!
