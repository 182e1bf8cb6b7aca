//! A model of the slice of the filesystem the installer touches: a
//! finite map from paths to text contents. The install, uninstall,
//! backup and manifest operations are verified against this model;
//! the surrounding application mirrors each step onto the real disk.

use vstd::prelude::*;

use crate::text::str_eq;

verus! {

/// The files of the store, as a map from path to content.
pub open spec fn as_map(entries: Seq<(String, String)>) -> Map<Seq<char>, Seq<char>>
    decreases entries.len(),
{
    if entries.len() == 0 {
        Map::empty()
    } else {
        as_map(entries.drop_last()).insert(entries.last().0@, entries.last().1@)
    }
}

/// No two entries name the same path.
pub open spec fn paths_unique(entries: Seq<(String, String)>) -> bool {
    forall|i: int, k: int| 0 <= i < k < entries.len() ==> entries[i].0@ != entries[k].0@
}

/// A file store: the paths and contents of the files this tool reads
/// and writes.
pub struct FileStore {
    files: Vec<(String, String)>,
}

impl View for FileStore {
    type V = Map<Seq<char>, Seq<char>>;

    closed spec fn view(&self) -> Map<Seq<char>, Seq<char>> {
        as_map(self.files@)
    }
}

proof fn lemma_as_map_domain(entries: Seq<(String, String)>, k: Seq<char>)
    ensures
        as_map(entries).contains_key(k) <==> exists|i: int|
            0 <= i < entries.len() && entries[i].0@ == k,
    decreases entries.len(),
{
    if entries.len() > 0 {
        lemma_as_map_domain(entries.drop_last(), k);
        if entries.last().0@ == k {
            assert(entries[entries.len() - 1].0@ == k);
        } else if as_map(entries).contains_key(k) {
            let i = choose|i: int|
                0 <= i < entries.drop_last().len() && entries.drop_last()[i].0@ == k;
            assert(entries[i].0@ == k);
        } else {
            assert(forall|i: int|
                0 <= i < entries.drop_last().len() ==> entries.drop_last()[i].0@ == entries[i].0@);
        }
    }
}

proof fn lemma_as_map_index(entries: Seq<(String, String)>, i: int)
    requires
        paths_unique(entries),
        0 <= i < entries.len(),
    ensures
        as_map(entries).contains_key(entries[i].0@),
        as_map(entries)[entries[i].0@] == entries[i].1@,
    decreases entries.len(),
{
    if i == entries.len() - 1 {
    } else {
        assert(entries.drop_last()[i] == entries[i]);
        lemma_as_map_index(entries.drop_last(), i);
        assert(entries.last().0@ != entries[i].0@);
    }
}

impl FileStore {
    /// A store holding no files.
    pub fn new() -> (r: FileStore)
        ensures
            r.wf(),
            r@ == Map::<Seq<char>, Seq<char>>::empty(),
    {
        FileStore { files: Vec::new() }
    }

    /// The store's structural invariant.
    pub closed spec fn wf(self) -> bool {
        paths_unique(self.files@)
    }

    /// The index of the entry for `path`, if the file exists.
    #[verifier::loop_isolation(false)]
    fn find(&self, path: &str) -> (r: Option<usize>)
        requires
            self.wf(),
        ensures
            match r {
                Some(i) => i < self.files@.len() && self.files@[i as int].0@ == path@
                    && self@.contains_key(path@) && self@[path@] == self.files@[i as int].1@,
                None => !self@.contains_key(path@),
            },
    {
        let mut i: usize = 0;
        while i < self.files.len()
            invariant
                0 <= i <= self.files@.len(),
                forall|k: int| 0 <= k < i ==> self.files@[k].0@ != path@,
            decreases self.files@.len() - i,
        {
            if str_eq(self.files[i].0.as_str(), path) {
                proof {
                    lemma_as_map_index(self.files@, i as int);
                }
                return Some(i);
            }
            i = i + 1;
        }
        proof {
            lemma_as_map_domain(self.files@, path@);
        }
        None
    }

    /// Whether a file exists at `path`.
    pub fn has_file(&self, path: &str) -> (r: bool)
        requires
            self.wf(),
        ensures
            r == self@.contains_key(path@),
    {
        match self.find(path) {
            Some(_) => true,
            None => false,
        }
    }

    /// The content of the file at `path`, if it exists.
    pub fn read(&self, path: &str) -> (r: Option<String>)
        requires
            self.wf(),
        ensures
            match r {
                Some(s) => self@.contains_key(path@) && s@ == self@[path@],
                None => !self@.contains_key(path@),
            },
    {
        match self.find(path) {
            Some(i) => Some(self.files[i].1.clone()),
            None => None,
        }
    }

    /// Create or overwrite the file at `path`.
    pub fn write(&mut self, path: &str, content: String)
        requires
            old(self).wf(),
        ensures
            final(self).wf(),
            final(self)@ == old(self)@.insert(path@, content@),
    {
        match self.find(path) {
            Some(i) => {
                self.files[i].1 = content;
                proof {
                    lemma_as_map_update(old(self).files@, i as int, content);
                    assert(self.files@ =~= old(self).files@.update(
                        i as int,
                        (old(self).files@[i as int].0, content),
                    ));
                }
            },
            None => {
                let owned = path.to_owned();
                self.files.push((owned, content));
                proof {
                    lemma_as_map_domain(old(self).files@, path@);
                    assert(forall|k: int|
                        0 <= k < old(self).files@.len() ==> old(self).files@[k].0@ != path@);
                    assert(self.files@.drop_last() =~= old(self).files@);
                    assert(self.files@.last() == (owned, content));
                    assert(paths_unique(self.files@));
                }
            },
        }
    }

    /// Remove the file at `path`; removing an absent file changes
    /// nothing.
    pub fn remove(&mut self, path: &str)
        requires
            old(self).wf(),
        ensures
            final(self).wf(),
            final(self)@ == old(self)@.remove(path@),
    {
        match self.find(path) {
            Some(i) => {
                self.files.remove(i);
                proof {
                    lemma_as_map_remove(old(self).files@, i as int);
                }
            },
            None => {
                proof {
                    lemma_as_map_domain(self.files@, path@);
                    assert(self@.remove(path@) =~= self@);
                }
            },
        }
    }
}

proof fn lemma_as_map_update(entries: Seq<(String, String)>, i: int, v: String)
    requires
        paths_unique(entries),
        0 <= i < entries.len(),
    ensures
        as_map(entries.update(i, (entries[i].0, v))) =~= as_map(entries).insert(
            entries[i].0@,
            v@,
        ),
        paths_unique(entries.update(i, (entries[i].0, v))),
    decreases entries.len(),
{
    let upd = entries.update(i, (entries[i].0, v));
    if i == entries.len() - 1 {
        assert(upd.drop_last() =~= entries.drop_last());
        assert(upd.last() == (entries[i].0, v));
    } else {
        assert(upd.drop_last() =~= entries.drop_last().update(i, (entries[i].0, v)));
        assert(entries.drop_last()[i] == entries[i]);
        lemma_as_map_update(entries.drop_last(), i, v);
        assert(upd.last() == entries.last());
        assert(entries.last().0@ != entries[i].0@);
    }
}

proof fn lemma_as_map_remove(entries: Seq<(String, String)>, i: int)
    requires
        paths_unique(entries),
        0 <= i < entries.len(),
    ensures
        as_map(entries.remove(i)) =~= as_map(entries).remove(entries[i].0@),
        paths_unique(entries.remove(i)),
    decreases entries.len(),
{
    let rem = entries.remove(i);
    lemma_as_map_domain(entries.drop_last(), entries[i].0@);
    if i == entries.len() - 1 {
        assert(rem =~= entries.drop_last());
        assert(forall|k: int|
            0 <= k < entries.drop_last().len() ==> entries.drop_last()[k].0@ != entries[i].0@);
        assert(!as_map(entries.drop_last()).contains_key(entries[i].0@));
        assert(as_map(entries.drop_last()) =~= as_map(entries.drop_last()).insert(
            entries[i].0@,
            entries[i].1@,
        ).remove(entries[i].0@));
    } else {
        assert(rem.drop_last() =~= entries.drop_last().remove(i));
        assert(entries.drop_last()[i] == entries[i]);
        lemma_as_map_remove(entries.drop_last(), i);
        assert(rem.last() == entries.last());
        assert(entries.last().0@ != entries[i].0@);
    }
}

} // verus!
