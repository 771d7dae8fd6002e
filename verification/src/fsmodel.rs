//! An in-memory model of the destination filesystem: a finite map from
//! absolute paths to file contents.
//!
//! The transfer executor's effects are specified against this model; the
//! shell interprets the same decisions with real file primitives.  The
//! model also lets the whole executor run end to end without touching a
//! disk.

use vstd::prelude::*;
use vstd::string::StringExecFns;

use crate::strutil::str_eq;

verus! {

/// A modelled filesystem: each file is a path with its contents.
pub struct FsModel {
    pub files: Vec<(String, Vec<u8>)>,
}

/// The map a file list denotes (later entries win; well-formed models
/// have no duplicate paths).
pub open spec fn map_of(s: Seq<(String, Vec<u8>)>) -> Map<Seq<char>, Seq<u8>>
    decreases s.len(),
{
    if s.len() == 0 {
        Map::empty()
    } else {
        map_of(s.drop_last()).insert(s.last().0@, s.last().1@)
    }
}

proof fn lemma_map_of_contains(s: Seq<(String, Vec<u8>)>, p: Seq<char>)
    ensures
        map_of(s).contains_key(p) <==> exists|i: int| 0 <= i < s.len() && s[i].0@ == p,
    decreases s.len(),
{
    if s.len() > 0 {
        lemma_map_of_contains(s.drop_last(), p);
        if s.last().0@ == p {
            assert(s[s.len() - 1].0@ == p);
        } else if map_of(s).contains_key(p) {
            let i = choose|i: int| 0 <= i < s.drop_last().len() && s.drop_last()[i].0@ == p;
            assert(s[i].0@ == p);
        } else {
            assert forall|i: int| 0 <= i < s.len() implies s[i].0@ != p by {
                if i < s.len() - 1 {
                    assert(s.drop_last()[i].0@ == s[i].0@);
                }
            }
        }
    }
}

impl FsModel {
    /// No path occurs twice.
    pub open spec fn wf(self) -> bool {
        forall|i: int, j: int|
            0 <= i < j < self.files@.len() ==> self.files@[i].0@ != self.files@[j].0@
    }

    /// The path-to-contents map this model denotes.
    pub open spec fn view_map(self) -> Map<Seq<char>, Seq<u8>> {
        map_of(self.files@)
    }

    /// An empty filesystem.
    pub fn empty() -> (r: Self)
        ensures
            r.wf(),
            r.view_map() == Map::<Seq<char>, Seq<u8>>::empty(),
    {
        FsModel { files: Vec::new() }
    }

    fn index_of(&self, path: &str) -> (r: Option<usize>)
        ensures
            match r {
                Some(i) => i < self.files@.len() && self.files@[i as int].0@ == path@,
                None => forall|i: int| 0 <= i < self.files@.len() ==> self.files@[i].0@ != path@,
            },
    {
        let mut i: usize = 0;
        while i < self.files.len()
            invariant
                i <= self.files@.len(),
                forall|k: int| 0 <= k < i ==> self.files@[k].0@ != path@,
            decreases self.files@.len() - i,
        {
            if str_eq(self.files[i].0.as_str(), path) {
                return Some(i);
            }
            i = i + 1;
        }
        None
    }

    /// Whether a file exists at `path`.
    pub fn exists_file(&self, path: &str) -> (r: bool)
        ensures
            r == self.view_map().contains_key(path@),
    {
        proof {
            lemma_map_of_contains(self.files@, path@);
        }
        match self.index_of(path) {
            Some(_) => true,
            None => false,
        }
    }

    /// The contents at `path`, when a file is there.
    pub fn read_file(&self, path: &str) -> (r: Option<Vec<u8>>)
        requires
            self.wf(),
        ensures
            match r {
                Some(b) => self.view_map().contains_key(path@) && b@ == self.view_map()[path@],
                None => !self.view_map().contains_key(path@),
            },
    {
        proof {
            lemma_map_of_contains(self.files@, path@);
        }
        match self.index_of(path) {
            Some(i) => {
                proof {
                    lemma_map_of_at(self.files@, i as int);
                }
                Some(self.files[i].1.clone())
            },
            None => None,
        }
    }

    /// Create or overwrite the file at `path`.
    pub fn write_file(&mut self, path: &str, contents: Vec<u8>)
        requires
            old(self).wf(),
        ensures
            final(self).wf(),
            final(self).view_map() == old(self).view_map().insert(path@, contents@),
    {
        let ghost pre = self.files@;
        match self.index_of(path) {
            Some(i) => {
                let owned = String::from_str(path);
                self.files.remove(i);
                proof {
                    lemma_map_of_remove(pre, i as int);
                    assert forall|a: int, b: int|
                        0 <= a < b < self.files@.len() implies self.files@[a].0@
                        != self.files@[b].0@ by {
                        assert(self.files@[a] == if a < i as int { pre[a] } else { pre[a + 1] });
                        assert(self.files@[b] == if b < i as int { pre[b] } else { pre[b + 1] });
                    }
                    assert forall|k: int| 0 <= k < self.files@.len() implies self.files@[k].0@
                        != path@ by {
                        assert(self.files@[k] == if k < i as int { pre[k] } else { pre[k + 1] });
                        assert(pre[i as int].0@ == path@);
                    }
                }
                let ghost mid = self.files@;
                self.files.push((owned, contents));
                proof {
                    assert(self.files@.drop_last() =~= mid);
                    assert(self.view_map() == map_of(mid).insert(path@, contents@));
                    assert(map_of(pre).remove(path@).insert(path@, contents@) =~= map_of(
                        pre,
                    ).insert(path@, contents@));
                    assert(self.wf());
                }
            },
            None => {
                let owned = String::from_str(path);
                let ghost mid = self.files@;
                self.files.push((owned, contents));
                proof {
                    assert(self.files@.drop_last() =~= mid);
                    assert(self.view_map() == map_of(mid).insert(path@, contents@));
                }
            },
        }
    }

    /// Delete the file at `path` (a missing file stays missing).
    pub fn remove_file(&mut self, path: &str)
        requires
            old(self).wf(),
        ensures
            final(self).wf(),
            final(self).view_map() == old(self).view_map().remove(path@),
    {
        let ghost pre = self.files@;
        match self.index_of(path) {
            Some(i) => {
                self.files.remove(i);
                proof {
                    lemma_map_of_remove(pre, i as int);
                    assert(final(self).view_map() =~= old(self).view_map().remove(path@));
                }
            },
            None => {
                proof {
                    lemma_map_of_contains(pre, path@);
                    assert(final(self).view_map() =~= old(self).view_map().remove(path@));
                }
            },
        }
    }

    /// Every path the model holds, in storage order.
    pub fn all_paths(&self) -> (r: Vec<String>)
        ensures
            r@.len() == self.files@.len(),
            forall|i: int| 0 <= i < r@.len() ==> r@[i]@ == self.files@[i].0@,
            forall|p: Seq<char>|
                self.view_map().contains_key(p) <==> exists|i: int| 0 <= i < r@.len() && r@[i]@
                    == p,
    {
        let mut r: Vec<String> = Vec::new();
        let mut i: usize = 0;
        while i < self.files.len()
            invariant
                i <= self.files@.len(),
                r@.len() == i,
                forall|k: int| 0 <= k < i ==> r@[k]@ == self.files@[k].0@,
            decreases self.files@.len() - i,
        {
            r.push(self.files[i].0.clone());
            i = i + 1;
        }
        proof {
            assert forall|p: Seq<char>| #[trigger]
                self.view_map().contains_key(p) implies exists|k: int|
                0 <= k < r@.len() && r@[k]@ == p by {
                lemma_map_of_contains(self.files@, p);
                let w = choose|w: int| 0 <= w < self.files@.len() && self.files@[w].0@ == p;
                assert(r@[w]@ == p);
            }
            assert forall|p: Seq<char>|
                (exists|k: int| 0 <= k < r@.len() && r@[k]@ == p) implies #[trigger]
                self.view_map().contains_key(p) by {
                lemma_map_of_contains(self.files@, p);
            }
        }
        r
    }
}

proof fn lemma_map_of_at(s: Seq<(String, Vec<u8>)>, i: int)
    requires
        0 <= i < s.len(),
        forall|a: int, b: int| 0 <= a < b < s.len() ==> s[a].0@ != s[b].0@,
    ensures
        map_of(s).contains_key(s[i].0@),
        map_of(s)[s[i].0@] == s[i].1@,
    decreases s.len(),
{
    if i == s.len() - 1 {
        lemma_map_of_contains(s, s[i].0@);
    } else {
        lemma_map_of_at(s.drop_last(), i);
        assert(s.drop_last()[i] == s[i]);
        assert(s.last().0@ != s[i].0@);
    }
}

proof fn lemma_map_of_push(s: Seq<(String, Vec<u8>)>)
    requires
        s.len() > 0,
    ensures
        map_of(s) == map_of(s.drop_last()).insert(s.last().0@, s.last().1@),
{
}

proof fn lemma_map_of_remove(s: Seq<(String, Vec<u8>)>, i: int)
    requires
        0 <= i < s.len(),
        forall|a: int, b: int| 0 <= a < b < s.len() ==> s[a].0@ != s[b].0@,
    ensures
        map_of(s.remove(i)) == map_of(s).remove(s[i].0@),
    decreases s.len(),
{
    if i == s.len() - 1 {
        assert(s.remove(i) =~= s.drop_last());
        assert(!map_of(s.drop_last()).contains_key(s[i].0@)) by {
            lemma_map_of_contains(s.drop_last(), s[i].0@);
            assert forall|k: int| 0 <= k < s.drop_last().len() implies s.drop_last()[k].0@
                != s[i].0@ by {
                assert(s.drop_last()[k] == s[k]);
            }
        }
        assert(map_of(s.drop_last()).insert(s.last().0@, s.last().1@).remove(s[i].0@)
            =~= map_of(s.drop_last()));
    } else {
        lemma_map_of_remove(s.drop_last(), i);
        assert(s.remove(i) =~= s.drop_last().remove(i).push(s.last()));
        assert(map_of(s.remove(i)) == map_of(s.remove(i).drop_last()).insert(
            s.remove(i).last().0@,
            s.remove(i).last().1@,
        ));
        assert(s.remove(i).drop_last() =~= s.drop_last().remove(i));
        assert(s.remove(i).last() == s.last());
        assert(map_of(s.drop_last()).remove(s[i].0@).insert(s.last().0@, s.last().1@)
            =~= map_of(s.drop_last()).insert(s.last().0@, s.last().1@).remove(s[i].0@)) by {
            assert(s.drop_last()[i] == s[i]);
            assert(s[i].0@ != s.last().0@);
        }
    }
}

} // verus!
