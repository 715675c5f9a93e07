//! The blob area: raw upload bytes, addressed by file name.
//!
//! One entry per file name `{content digest}.{extension}`.  Because names
//! are content-addressed, writing the same name again carries the same
//! bytes, so a write either adds an entry or overwrites one in place —
//! both are safe.  Deletion is best-effort: records, not blobs, decide
//! whether an image exists.

use vstd::prelude::*;

verus! {

/// Spec-level image of one stored blob.
pub struct BlobView {
    pub name: Seq<char>,
    pub data: Seq<u8>,
}

/// One stored blob.
pub struct BlobEntry {
    pub name: String,
    pub data: Vec<u8>,
}

impl View for BlobEntry {
    type V = BlobView;

    open spec fn view(&self) -> BlobView {
        BlobView { name: self.name@, data: self.data@ }
    }
}

/// True when some blob carries this name.
pub open spec fn has_blob(s: Seq<BlobView>, name: Seq<char>) -> bool {
    exists|i: int| 0 <= i < s.len() && s[i].name == name
}

/// The index of the blob carrying this name; meaningful only under name
/// uniqueness.
pub open spec fn blob_index(s: Seq<BlobView>, name: Seq<char>) -> int
    recommends
        has_blob(s, name),
{
    choose|i: int| 0 <= i < s.len() && s[i].name == name
}

/// The blob carrying this name; meaningful only under name uniqueness.
pub open spec fn blob_with(s: Seq<BlobView>, name: Seq<char>) -> BlobView
    recommends
        has_blob(s, name),
{
    s[blob_index(s, name)]
}

/// Names are pairwise distinct.
pub open spec fn unique_names(s: Seq<BlobView>) -> bool {
    forall|i: int, j: int| 0 <= i < j < s.len() ==> s[i].name != s[j].name
}

/// What writing `data` under `name` does: overwrite the entry carrying the
/// name, or add one.
pub open spec fn spec_write_blob(s: Seq<BlobView>, name: Seq<char>, data: Seq<u8>) -> Seq<
    BlobView,
> {
    if has_blob(s, name) {
        s.update(blob_index(s, name), BlobView { name, data })
    } else {
        s.push(BlobView { name, data })
    }
}

/// What removing the entry carrying `name` does: drop it, or nothing when
/// no entry carries the name.
pub open spec fn spec_remove_blob(s: Seq<BlobView>, name: Seq<char>) -> Seq<BlobView> {
    if has_blob(s, name) {
        s.remove(blob_index(s, name))
    } else {
        s
    }
}

/// The blob area.
pub struct BlobStore {
    entries: Vec<BlobEntry>,
}

impl View for BlobStore {
    type V = Seq<BlobView>;

    closed spec fn view(&self) -> Seq<BlobView> {
        self.entries@.map_values(|e: BlobEntry| e@)
    }
}

impl BlobStore {
    /// Names are unique, so a blob is addressable by its name alone.
    pub open spec fn wf(&self) -> bool {
        unique_names(self@)
    }

    pub fn new() -> (r: BlobStore)
        ensures
            r@ == Seq::<BlobView>::empty(),
            r.wf(),
    {
        let r = BlobStore { entries: Vec::new() };
        proof {
            assert(r@ =~= Seq::<BlobView>::empty());
        }
        r
    }

    /// Index of the entry carrying this name, if any.
    fn find_index(&self, name: &String) -> (r: Option<usize>)
        ensures
            match r {
                Some(i) => i < self@.len() && self@[i as int].name == name@,
                None => !has_blob(self@, name@),
            },
    {
        let n = self.entries.len();
        let mut i: usize = 0;
        while i < n
            invariant
                n == self.entries.len(),
                i <= n,
                self@.len() == n,
                forall|k: int| 0 <= k < i ==> self@[k].name != name@,
            decreases n - i,
        {
            if self.entries[i].name == *name {
                return Some(i);
            }
            i += 1;
        }
        None
    }

    /// Write `data` under `name`: overwrite in place or add an entry.
    pub fn write_blob(&mut self, name: String, data: Vec<u8>) -> (r: bool)
        requires
            old(self).wf(),
        ensures
            final(self).wf(),
            final(self)@ == spec_write_blob(old(self)@, name@, data@),
            r == has_blob(old(self)@, name@),
    {
        let ghost prev = self@;
        let ghost gname = name@;
        match self.find_index(&name) {
            Some(i) => {
                proof {
                    let j = blob_index(prev, gname);
                    assert(prev[j].name == gname);
                    assert(j == i as int);
                }
                self.entries.set(i, BlobEntry { name, data });
                proof {
                    assert(self@ =~= prev.update(i as int, BlobView { name: gname, data: data@ }));
                    assert(unique_names(self@)) by {
                        assert(forall|k: int|
                            0 <= k < self@.len() ==> self@[k].name == prev[k].name);
                    }
                }
                true
            },
            None => {
                self.entries.push(BlobEntry { name, data });
                proof {
                    assert(self@ =~= prev.push(BlobView { name: gname, data: data@ }));
                    assert(unique_names(self@)) by {
                        assert(forall|k: int| 0 <= k < prev.len() ==> self@[k] == prev[k]);
                        assert(!has_blob(prev, gname));
                    }
                }
                false
            },
        }
    }

    /// The bytes stored under `name`, if any.
    pub fn read_blob(&self, name: &String) -> (r: Option<&Vec<u8>>)
        requires
            self.wf(),
        ensures
            match r {
                Some(d) => has_blob(self@, name@) && d@ == blob_with(self@, name@).data,
                None => !has_blob(self@, name@),
            },
    {
        match self.find_index(name) {
            Some(i) => {
                proof {
                    let j = blob_index(self@, name@);
                    assert(self@[j].name == name@);
                    assert(j == i as int);
                }
                Some(&self.entries[i].data)
            },
            None => None,
        }
    }

    /// Drop the entry carrying `name`, if there is one; says whether one
    /// was dropped.
    pub fn remove_blob(&mut self, name: &String) -> (r: bool)
        requires
            old(self).wf(),
        ensures
            final(self).wf(),
            final(self)@ == spec_remove_blob(old(self)@, name@),
            r == has_blob(old(self)@, name@),
    {
        let ghost prev = self@;
        match self.find_index(name) {
            Some(i) => {
                proof {
                    let j = blob_index(prev, name@);
                    assert(prev[j].name == name@);
                    assert(j == i as int);
                }
                self.entries.remove(i);
                proof {
                    assert(self@ =~= prev.remove(i as int));
                    prev.remove_ensures(i as int);
                    assert(unique_names(self@));
                }
                true
            },
            None => false,
        }
    }
}

} // verus!
