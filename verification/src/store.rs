//! Ownership-scoped image records.
//!
//! A record describes one upload: the content hash that identifies it, the
//! owner that may see it, and its metadata.  The pair `(hash, owner)` is the
//! primary key — the same bytes uploaded by two owners are two records, the
//! same owner re-uploading identical bytes is a conflict, never a second
//! row.  Every lookup and every deletion is scoped by owner; no record is
//! addressable by hash alone.
//!
//! Records are kept newest-first by creation time, so listing an owner's
//! hashes needs no sorting at read time.

use vstd::prelude::*;

use crate::gps::Coordinate;

verus! {

/// Spec-level image of a stored record.
pub struct ImageView {
    pub hash: Seq<char>,
    pub extension: Seq<char>,
    pub owner: Seq<char>,
    pub image_name: Option<Seq<char>>,
    pub created_at: u64,
    pub modified_at: u64,
    pub longitude: Option<Coordinate>,
    pub latitude: Option<Coordinate>,
}

/// One image record: content hash, file extension, owner, optional display
/// name, timestamps, and the optional extracted position.
pub struct Image {
    pub hash: String,
    pub extension: String,
    pub owner: String,
    pub image_name: Option<String>,
    pub created_at: u64,
    pub modified_at: u64,
    pub longitude: Option<Coordinate>,
    pub latitude: Option<Coordinate>,
}

impl View for Image {
    type V = ImageView;

    open spec fn view(&self) -> ImageView {
        ImageView {
            hash: self.hash@,
            extension: self.extension@,
            owner: self.owner@,
            image_name: match self.image_name {
                Some(n) => Some(n@),
                None => None,
            },
            created_at: self.created_at,
            modified_at: self.modified_at,
            longitude: self.longitude,
            latitude: self.latitude,
        }
    }
}

impl Clone for Image {
    fn clone(&self) -> (r: Self)
        ensures
            r@ == self@,
    {
        Image {
            hash: self.hash.clone(),
            extension: self.extension.clone(),
            owner: self.owner.clone(),
            image_name: match &self.image_name {
                Some(n) => Some(n.clone()),
                None => None,
            },
            created_at: self.created_at,
            modified_at: self.modified_at,
            longitude: self.longitude,
            latitude: self.latitude,
        }
    }
}

/// True when some record carries this `(hash, owner)` key.
pub open spec fn has_record(s: Seq<ImageView>, hash: Seq<char>, owner: Seq<char>) -> bool {
    exists|i: int| 0 <= i < s.len() && s[i].hash == hash && s[i].owner == owner
}

/// The record carrying this key; meaningful only under key uniqueness.
pub open spec fn record_with(s: Seq<ImageView>, hash: Seq<char>, owner: Seq<char>) -> ImageView
    recommends
        has_record(s, hash, owner),
{
    s[choose|i: int| 0 <= i < s.len() && s[i].hash == hash && s[i].owner == owner]
}

/// The `(hash, owner)` keys are pairwise distinct.
pub open spec fn unique_keys(s: Seq<ImageView>) -> bool {
    forall|i: int, j: int|
        0 <= i < j < s.len() ==> !(s[i].hash == s[j].hash && s[i].owner == s[j].owner)
}

/// Creation times never increase along the sequence.
pub open spec fn sorted_newest_first(s: Seq<ImageView>) -> bool {
    forall|i: int, j: int| 0 <= i < j < s.len() ==> s[i].created_at >= s[j].created_at
}

/// Where a record created at `c` goes: before the first stored record whose
/// creation time is strictly older, after every record at least as new.
pub open spec fn insert_position(s: Seq<ImageView>, c: u64) -> int
    decreases s.len(),
{
    if s.len() == 0 {
        0
    } else if s[0].created_at < c {
        0
    } else {
        1 + insert_position(s.drop_first(), c)
    }
}

/// `insert_position` is exactly the first index whose record is strictly
/// older than `c`, or the length when there is none.
proof fn lemma_insert_position_characterization(s: Seq<ImageView>, c: u64, pos: int)
    requires
        0 <= pos <= s.len(),
        forall|k: int| 0 <= k < pos ==> s[k].created_at >= c,
        pos < s.len() ==> s[pos].created_at < c,
    ensures
        insert_position(s, c) == pos,
    decreases s.len(),
{
    if s.len() == 0 {
    } else if s[0].created_at < c {
        assert(pos == 0);
    } else {
        let t = s.drop_first();
        assert(forall|k: int| 0 <= k < pos - 1 ==> t[k].created_at >= c);
        lemma_insert_position_characterization(t, c, pos - 1);
    }
}

/// The outcome of an insertion: a fresh row, or a key conflict.
#[derive(Debug, PartialEq, Eq, Structural)]
pub enum InsertOutcome {
    Inserted,
    Conflict,
}

/// What inserting a record does: a duplicate `(hash, owner)` key conflicts
/// and changes nothing; otherwise the record enters at its creation-time
/// position.
pub open spec fn spec_insert(s: Seq<ImageView>, im: ImageView) -> (InsertOutcome, Seq<ImageView>) {
    if has_record(s, im.hash, im.owner) {
        (InsertOutcome::Conflict, s)
    } else {
        (InsertOutcome::Inserted, s.insert(insert_position(s, im.created_at), im))
    }
}

/// Inserting keeps key uniqueness and the newest-first order, and adds
/// exactly the new key when it was absent.
pub proof fn lemma_spec_insert_wf(s: Seq<ImageView>, im: ImageView)
    requires
        unique_keys(s),
        sorted_newest_first(s),
    ensures
        unique_keys(spec_insert(s, im).1),
        sorted_newest_first(spec_insert(s, im).1),
        spec_insert(s, im).0 is Inserted ==> !has_record(s, im.hash, im.owner),
        spec_insert(s, im).0 is Conflict ==> has_record(s, im.hash, im.owner) && spec_insert(
            s,
            im,
        ).1 == s,
        forall|h: Seq<char>, o: Seq<char>|
            #[trigger] has_record(spec_insert(s, im).1, h, o) <==> has_record(s, h, o) || (h
                == im.hash && o == im.owner),
        has_record(spec_insert(s, im).1, im.hash, im.owner),
        spec_insert(s, im).0 is Inserted ==> record_with(spec_insert(s, im).1, im.hash, im.owner)
            == im,
        forall|h: Seq<char>, o: Seq<char>|
            has_record(s, h, o) && !(h == im.hash && o == im.owner) ==> #[trigger] record_with(
                spec_insert(s, im).1,
                h,
                o,
            ) == record_with(s, h, o),
{
    if has_record(s, im.hash, im.owner) {
    } else {
        let pos = insert_position(s, im.created_at);
        lemma_insert_position_bounds(s, im.created_at);
        let t = s.insert(pos, im);
        s.insert_ensures(pos, im);
        assert(t.len() == s.len() + 1);
        // Each index of t maps to an index of s or to the new record.
        assert forall|i: int| 0 <= i < t.len() implies (if i < pos {
            t[i] == s[i]
        } else if i == pos {
            t[i] == im
        } else {
            t[i] == s[i - 1]
        }) by {
            if i > pos {
                assert(t[(i - 1) + 1] == s[i - 1]);
            }
        }
        assert(unique_keys(t)) by {
            assert forall|i: int, j: int| 0 <= i < j < t.len() implies !(t[i].hash == t[j].hash
                && t[i].owner == t[j].owner) by {
                if i == pos || j == pos {
                    let other = if i == pos {
                        j
                    } else {
                        i
                    };
                    let o_in_s = if other < pos {
                        other
                    } else {
                        other - 1
                    };
                    assert(t[other] == s[o_in_s]);
                    assert(!(s[o_in_s].hash == im.hash && s[o_in_s].owner == im.owner));
                }
            }
        }
        assert(sorted_newest_first(t)) by {
            assert forall|i: int, j: int| 0 <= i < j < t.len() implies t[i].created_at
                >= t[j].created_at by {
                if i == pos && j > pos {
                    assert(t[j] == s[j - 1]);
                    assert(s[j - 1].created_at < im.created_at) by {
                        if j - 1 > pos {
                            assert(s[pos].created_at < im.created_at);
                            assert(s[pos].created_at >= s[j - 1].created_at);
                        }
                    }
                } else if j == pos && i < pos {
                    assert(s[i].created_at >= im.created_at);
                }
            }
        }
        assert(has_record(t, im.hash, im.owner)) by {
            assert(t[pos].hash == im.hash && t[pos].owner == im.owner);
        }
        assert forall|h: Seq<char>, o: Seq<char>| #[trigger]
            has_record(t, h, o) <==> has_record(s, h, o) || (h == im.hash && o
            == im.owner) by {
            if has_record(t, h, o) {
                let i = choose|i: int| 0 <= i < t.len() && t[i].hash == h && t[i].owner == o;
                if i != pos {
                    let o_in_s = if i < pos {
                        i
                    } else {
                        i - 1
                    };
                    assert(s[o_in_s].hash == h && s[o_in_s].owner == o);
                }
            }
            if has_record(s, h, o) {
                let i = choose|i: int| 0 <= i < s.len() && s[i].hash == h && s[i].owner == o;
                let in_t = if i < pos {
                    i
                } else {
                    i + 1
                };
                assert(t[in_t].hash == h && t[in_t].owner == o);
            }
        }
        assert(record_with(t, im.hash, im.owner) == im) by {
            let i = choose|i: int|
                0 <= i < t.len() && t[i].hash == im.hash && t[i].owner == im.owner;
            if i != pos {
                let o_in_s = if i < pos {
                    i
                } else {
                    i - 1
                };
                assert(s[o_in_s].hash == im.hash && s[o_in_s].owner == im.owner);
                assert(has_record(s, im.hash, im.owner));
            }
        }
        assert forall|h: Seq<char>, o: Seq<char>|
            has_record(s, h, o) && !(h == im.hash && o == im.owner) implies #[trigger] record_with(
            t,
            h,
            o,
        ) == record_with(s, h, o) by {
            let i = choose|i: int| 0 <= i < s.len() && s[i].hash == h && s[i].owner == o;
            let in_t = if i < pos {
                i
            } else {
                i + 1
            };
            assert(t[in_t].hash == h && t[in_t].owner == o);
            let j = choose|j: int| 0 <= j < t.len() && t[j].hash == h && t[j].owner == o;
            // j names the same record as in_t: both carry the key, and keys
            // are unique in t.
            if j != pos {
                let j_in_s = if j < pos {
                    j
                } else {
                    j - 1
                };
                assert(t[j] == s[j_in_s]);
                assert(s[j_in_s].hash == h && s[j_in_s].owner == o);
                assert(i == j_in_s);
            }
        }
    }
}

/// `insert_position` lies within the sequence, everything before it is at
/// least as new as `c`, and the record at it (if any) is strictly older.
pub proof fn lemma_insert_position_bounds(s: Seq<ImageView>, c: u64)
    ensures
        0 <= insert_position(s, c) <= s.len(),
        forall|k: int| 0 <= k < insert_position(s, c) ==> s[k].created_at >= c,
        insert_position(s, c) < s.len() ==> s[insert_position(s, c)].created_at < c,
    decreases s.len(),
{
    if s.len() == 0 {
    } else if s[0].created_at < c {
    } else {
        let t = s.drop_first();
        lemma_insert_position_bounds(t, c);
        assert forall|k: int| 0 <= k < insert_position(s, c) implies s[k].created_at >= c by {
            if k > 0 {
                assert(t[k - 1].created_at >= c);
            }
        }
    }
}

/// The hashes of one owner's records, in stored order.
pub open spec fn owner_hashes(s: Seq<ImageView>, owner: Seq<char>) -> Seq<Seq<char>>
    decreases s.len(),
{
    if s.len() == 0 {
        Seq::empty()
    } else if s.last().owner == owner {
        owner_hashes(s.drop_last(), owner).push(s.last().hash)
    } else {
        owner_hashes(s.drop_last(), owner)
    }
}

/// Isolation: another owner's record, entering at any position, changes
/// nothing about what this owner's listing yields — applied once per row,
/// this makes any number of other owners' records invisible to an
/// owner-scoped listing.
pub proof fn lemma_other_owner_invisible(
    s: Seq<ImageView>,
    im: ImageView,
    k: int,
    owner: Seq<char>,
)
    requires
        0 <= k <= s.len(),
        im.owner != owner,
    ensures
        owner_hashes(s.insert(k, im), owner) == owner_hashes(s, owner),
    decreases s.len(),
{
    let t = s.insert(k, im);
    s.insert_ensures(k, im);
    if k == s.len() {
        assert(t.drop_last() =~= s);
    } else {
        assert(t.last() == s[s.len() - 1]) by {
            assert(t[(s.len() - 1) + 1] == s[s.len() - 1]);
        }
        assert(t.drop_last() =~= s.drop_last().insert(k, im)) by {
            s.drop_last().insert_ensures(k, im);
        }
        lemma_other_owner_invisible(s.drop_last(), im, k, owner);
    }
}

/// One owner's records, in stored order.
pub open spec fn owner_records(s: Seq<ImageView>, owner: Seq<char>) -> Seq<ImageView>
    decreases s.len(),
{
    if s.len() == 0 {
        Seq::empty()
    } else if s.last().owner == owner {
        owner_records(s.drop_last(), owner).push(s.last())
    } else {
        owner_records(s.drop_last(), owner)
    }
}

/// The listed hashes are exactly the hashes of the owner's records, in the
/// same order, and every one of those records belongs to the owner.
pub proof fn lemma_owner_hashes_are_owner_records(s: Seq<ImageView>, owner: Seq<char>)
    ensures
        owner_hashes(s, owner) == owner_records(s, owner).map_values(|im: ImageView| im.hash),
        forall|i: int|
            0 <= i < owner_records(s, owner).len() ==> #[trigger] owner_records(
                s,
                owner,
            )[i].owner == owner,
    decreases s.len(),
{
    if s.len() == 0 {
        assert(owner_hashes(s, owner) =~= owner_records(s, owner).map_values(
            |im: ImageView| im.hash,
        ));
    } else {
        lemma_owner_hashes_are_owner_records(s.drop_last(), owner);
        if s.last().owner == owner {
            assert(owner_hashes(s, owner) =~= owner_records(s, owner).map_values(
                |im: ImageView| im.hash,
            ));
        }
    }
}

/// Listing is newest-first: because the store keeps records in
/// non-increasing creation time, so is the owner's sublist.
pub proof fn lemma_owner_records_newest_first(s: Seq<ImageView>, owner: Seq<char>)
    requires
        sorted_newest_first(s),
    ensures
        sorted_newest_first(owner_records(s, owner)),
        forall|i: int|
            0 <= i < owner_records(s, owner).len() ==> exists|j: int|
                0 <= j < s.len() && s[j] == #[trigger] owner_records(s, owner)[i],
    decreases s.len(),
{
    if s.len() == 0 {
    } else {
        let d = s.drop_last();
        assert(sorted_newest_first(d)) by {
            assert(forall|i: int| 0 <= i < d.len() ==> d[i] == s[i]);
        }
        lemma_owner_records_newest_first(d, owner);
        let t = owner_records(s, owner);
        // Every listed record comes from s.
        assert forall|i: int| 0 <= i < t.len() implies exists|j: int|
            0 <= j < s.len() && s[j] == #[trigger] t[i] by {
            if s.last().owner == owner && i == t.len() - 1 {
                assert(s[s.len() - 1] == t[i]);
            } else {
                let jd = choose|jd: int| 0 <= jd < d.len() && d[jd] == owner_records(d, owner)[i];
                assert(s[jd] == t[i]);
            }
        }
        if s.last().owner == owner {
            assert forall|i: int, j: int| 0 <= i < j < t.len() implies t[i].created_at
                >= t[j].created_at by {
                if j == t.len() - 1 {
                    let js = choose|js: int| 0 <= js < s.len() && s[js] == t[i];
                    // Anything earlier in the store is at least as new as the
                    // last record.
                    assert(s[js].created_at >= s[s.len() - 1].created_at);
                }
            }
        }
    }
}

/// The record table.
pub struct RecordStore {
    records: Vec<Image>,
}

impl View for RecordStore {
    type V = Seq<ImageView>;

    closed spec fn view(&self) -> Seq<ImageView> {
        self.records@.map_values(|im: Image| im@)
    }
}

impl RecordStore {
    /// Keys are unique and records are kept newest-first.
    pub open spec fn wf(&self) -> bool {
        unique_keys(self@) && sorted_newest_first(self@)
    }

    pub fn new() -> (r: RecordStore)
        ensures
            r@ == Seq::<ImageView>::empty(),
            r.wf(),
    {
        let r = RecordStore { records: Vec::new() };
        proof {
            assert(r@ =~= Seq::<ImageView>::empty());
        }
        r
    }

    /// Index of the record with this `(hash, owner)` key, if any.
    fn find_index(&self, hash: &String, owner: &String) -> (r: Option<usize>)
        ensures
            match r {
                Some(i) => i < self@.len() && self@[i as int].hash == hash@ && self@[
                    i as int
                ].owner == owner@,
                None => !has_record(self@, hash@, owner@),
            },
    {
        let n = self.records.len();
        let mut i: usize = 0;
        while i < n
            invariant
                n == self.records.len(),
                i <= n,
                self@.len() == n,
                forall|k: int|
                    0 <= k < i ==> !(self@[k].hash == hash@ && self@[k].owner == owner@),
            decreases n - i,
        {
            if self.records[i].hash == *hash && self.records[i].owner == *owner {
                return Some(i);
            }
            i += 1;
        }
        None
    }
}

/// Insert a record: a duplicate `(hash, owner)` key is a conflict and
/// changes nothing; otherwise the record enters at its creation-time
/// position, keeping the store newest-first.
pub fn insert_image(store: &mut RecordStore, image: &Image) -> (r: InsertOutcome)
    requires
        old(store).wf(),
    ensures
        final(store).wf(),
        r == spec_insert(old(store)@, image@).0,
        final(store)@ == spec_insert(old(store)@, image@).1,
{
    proof {
        lemma_spec_insert_wf(store@, image@);
    }
    if let Some(_) = store.find_index(&image.hash, &image.owner) {
        return InsertOutcome::Conflict;
    }
    let n = store.records.len();
    let mut k: usize = 0;
    while k < n && store.records[k].created_at >= image.created_at
        invariant
            n == store.records.len(),
            k <= n,
            store@.len() == n,
            forall|x: int| 0 <= x < k ==> store@[x].created_at >= image@.created_at,
        decreases n - k,
    {
        k += 1;
    }
    proof {
        lemma_insert_position_characterization(store@, image@.created_at, k as int);
    }
    let ghost prev = store@;
    let ghost prev_records = store.records@;
    let cloned = image.clone();
    let ghost celem = cloned;
    store.records.insert(k, cloned);
    proof {
        assert(store@ =~= prev.insert(k as int, image@)) by {
            prev_records.insert_ensures(k as int, celem);
            prev.insert_ensures(k as int, image@);
        }
    }
    InsertOutcome::Inserted
}

/// The hashes of one owner's records, newest-first.  No other owner's
/// records contribute.
pub fn get_image_hashes_by_owner(store: &RecordStore, owner: &String) -> (r: Vec<String>)
    ensures
        r.deep_view() == owner_hashes(store@, owner@),
{
    let n = store.records.len();
    let mut r: Vec<String> = Vec::new();
    let mut i: usize = 0;
    proof {
        assert(r.deep_view() =~= owner_hashes(store@.subrange(0, 0), owner@));
    }
    while i < n
        invariant
            n == store.records.len(),
            i <= n,
            store@.len() == n,
            r.deep_view() == owner_hashes(store@.subrange(0, i as int), owner@),
        decreases n - i,
    {
        let ghost prefix = store@.subrange(0, i as int);
        let ghost extended = store@.subrange(0, i as int + 1);
        proof {
            assert(extended.drop_last() =~= prefix);
            assert(extended.last() == store@[i as int]);
        }
        if store.records[i].owner == *owner {
            let ghost before = r.deep_view();
            r.push(store.records[i].hash.clone());
            proof {
                assert(r.deep_view() =~= before.push(store@[i as int].hash));
            }
        }
        i += 1;
    }
    proof {
        assert(store@.subrange(0, n as int) =~= store@);
    }
    r
}

/// Fetch the record with this `(hash, owner)` key: owner-scoped, so a hash
/// held by someone else is simply not found.
pub fn get_image_by_hash(store: &RecordStore, hash: &String, owner: &String) -> (r: Option<Image>)
    requires
        store.wf(),
    ensures
        match r {
            Some(im) => has_record(store@, hash@, owner@) && im@ == record_with(
                store@,
                hash@,
                owner@,
            ),
            None => !has_record(store@, hash@, owner@),
        },
{
    match store.find_index(hash, owner) {
        None => None,
        Some(i) => {
            let im = store.records[i].clone();
            proof {
                let j = choose|j: int|
                    0 <= j < store@.len() && store@[j].hash == hash@ && store@[j].owner == owner@;
                assert(store@[j].hash == hash@ && store@[j].owner == owner@);
                // Keys are unique, so the found index and the chosen index
                // name the same record.
                assert(j == i as int);
            }
            Some(im)
        },
    }
}

/// Delete the record with this `(hash, owner)` key.  Returns whether a row
/// was removed; another owner's record with the same hash is untouched.
pub fn delete_image_record(store: &mut RecordStore, hash: &String, owner: &String) -> (r: bool)
    requires
        old(store).wf(),
    ensures
        final(store).wf(),
        r == has_record(old(store)@, hash@, owner@),
        !r ==> final(store)@ == old(store)@,
        r ==> {
            &&& final(store)@.len() + 1 == old(store)@.len()
            &&& !has_record(final(store)@, hash@, owner@)
            &&& forall|h: Seq<char>, o: Seq<char>|
                #[trigger] has_record(final(store)@, h, o) <==> has_record(old(store)@, h, o) && !(
                h == hash@ && o == owner@)
            &&& forall|h: Seq<char>, o: Seq<char>|
                has_record(final(store)@, h, o) ==> #[trigger] record_with(final(store)@, h, o)
                    == record_with(old(store)@, h, o)
        },
{
    match store.find_index(hash, owner) {
        None => false,
        Some(i) => {
            let ghost prev = store@;
            store.records.remove(i);
            proof {
                assert(store@ =~= prev.remove(i as int));
                lemma_remove_effect(prev, i as int, hash@, owner@);
            }
            true
        },
    }
}

/// Removing the record at the unique index carrying a key removes exactly
/// that key: uniqueness and order survive, every other key keeps its record.
proof fn lemma_remove_effect(s: Seq<ImageView>, i: int, hash: Seq<char>, owner: Seq<char>)
    requires
        unique_keys(s),
        sorted_newest_first(s),
        0 <= i < s.len(),
        s[i].hash == hash,
        s[i].owner == owner,
    ensures
        unique_keys(s.remove(i)),
        sorted_newest_first(s.remove(i)),
        !has_record(s.remove(i), hash, owner),
        forall|h: Seq<char>, o: Seq<char>|
            #[trigger] has_record(s.remove(i), h, o) <==> has_record(s, h, o) && !(h == hash && o
                == owner),
        forall|h: Seq<char>, o: Seq<char>|
            has_record(s.remove(i), h, o) ==> #[trigger] record_with(s.remove(i), h, o)
                == record_with(s, h, o),
{
    let t = s.remove(i);
    s.remove_ensures(i);
    assert(t.len() == s.len() - 1);
    assert forall|j: int| 0 <= j < t.len() implies (if j < i {
        t[j] == s[j]
    } else {
        t[j] == s[j + 1]
    }) by {}
    assert(!has_record(t, hash, owner)) by {
        if has_record(t, hash, owner) {
            let j = choose|j: int| 0 <= j < t.len() && t[j].hash == hash && t[j].owner == owner;
            let j_in_s = if j < i {
                j
            } else {
                j + 1
            };
            assert(s[j_in_s].hash == hash && s[j_in_s].owner == owner);
            assert(j_in_s != i);
        }
    }
    assert forall|h: Seq<char>, o: Seq<char>| #[trigger]
        has_record(t, h, o) <==> has_record(s, h, o) && !(h == hash && o == owner) by {
        if has_record(t, h, o) {
            let j = choose|j: int| 0 <= j < t.len() && t[j].hash == h && t[j].owner == o;
            let j_in_s = if j < i {
                j
            } else {
                j + 1
            };
            assert(s[j_in_s].hash == h && s[j_in_s].owner == o);
            if h == hash && o == owner {
                assert(!has_record(t, hash, owner));
            }
        }
        if has_record(s, h, o) && !(h == hash && o == owner) {
            let j = choose|j: int| 0 <= j < s.len() && s[j].hash == h && s[j].owner == o;
            assert(j != i);
            let in_t = if j < i {
                j
            } else {
                j - 1
            };
            assert(t[in_t].hash == h && t[in_t].owner == o);
        }
    }
    assert forall|h: Seq<char>, o: Seq<char>|
        has_record(t, h, o) implies #[trigger] record_with(t, h, o) == record_with(s, h, o) by {
        let j = choose|j: int| 0 <= j < t.len() && t[j].hash == h && t[j].owner == o;
        let j_in_s = if j < i {
            j
        } else {
            j + 1
        };
        assert(s[j_in_s].hash == h && s[j_in_s].owner == o);
        let k = choose|k: int| 0 <= k < s.len() && s[k].hash == h && s[k].owner == o;
        assert(k == j_in_s);
    }
}

/// Dedup: once an upload's record is stored, storing a record with the same
/// content hash and the same owner reports a conflict and leaves the table
/// exactly as it was — one row, not two.
pub proof fn lemma_dedup(s: Seq<ImageView>, first: ImageView, second: ImageView)
    requires
        unique_keys(s),
        sorted_newest_first(s),
        second.hash == first.hash,
        second.owner == first.owner,
        spec_insert(s, first).0 is Inserted,
    ensures
        spec_insert(spec_insert(s, first).1, second).0 is Conflict,
        spec_insert(spec_insert(s, first).1, second).1 == spec_insert(s, first).1,
{
    lemma_spec_insert_wf(s, first);
}

/// Isolation: two different owners storing records under the same content
/// hash both succeed, and an owner-scoped lookup sees only that owner's
/// record.
pub proof fn lemma_owner_isolation(s: Seq<ImageView>, first: ImageView, second: ImageView)
    requires
        unique_keys(s),
        sorted_newest_first(s),
        second.hash == first.hash,
        second.owner != first.owner,
        !has_record(s, first.hash, first.owner),
        !has_record(s, second.hash, second.owner),
    ensures
        spec_insert(s, first).0 is Inserted,
        spec_insert(spec_insert(s, first).1, second).0 is Inserted,
        record_with(
            spec_insert(spec_insert(s, first).1, second).1,
            first.hash,
            first.owner,
        ) == first,
        record_with(
            spec_insert(spec_insert(s, first).1, second).1,
            second.hash,
            second.owner,
        ) == second,
{
    lemma_spec_insert_wf(s, first);
    let t = spec_insert(s, first).1;
    lemma_spec_insert_wf(t, second);
}

/// Ownership: whatever an owner-scoped lookup yields carries the owner it
/// was scoped to and the hash it was asked for — never another user's
/// record.
pub proof fn lemma_ownership_scoping(s: Seq<ImageView>, hash: Seq<char>, owner: Seq<char>)
    requires
        has_record(s, hash, owner),
    ensures
        record_with(s, hash, owner).hash == hash,
        record_with(s, hash, owner).owner == owner,
{
}

/// Ownership: a hash all of whose records belong to one owner is simply not
/// found when some other owner asks for it.
pub proof fn lemma_cross_owner_not_found(
    s: Seq<ImageView>,
    hash: Seq<char>,
    holder: Seq<char>,
    other: Seq<char>,
)
    requires
        forall|i: int| 0 <= i < s.len() && #[trigger] s[i].hash == hash ==> s[i].owner == holder,
        other != holder,
    ensures
        !has_record(s, hash, other),
{
}

} // verus!
