//! In-memory storage of encrypted files by id, with expiration.
use vstd::prelude::*;
use crate::encryption::{EncryptedFile, FileModel};
use crate::time::{is_clock_reading, is_later, Timestamp};

verus! {

/// Seconds between two sweeps for expired files.
pub const CLEANUP_INTERVAL_SECS: u64 = 60;

/// The file has an expiry and `now` is past it.
pub open spec fn is_expired(f: FileModel, now: (int, int)) -> bool {
    match f.expires_at {
        Some(e) => is_later(now, e),
        None => false,
    }
}

/// What a read of `id` at `now` gives: the stored file, unless it is
/// missing or expired.
pub open spec fn lookup(m: Map<Seq<char>, FileModel>, id: Seq<char>, now: (int, int)) -> Option<FileModel> {
    if m.dom().contains(id) && !is_expired(m[id], now) {
        Some(m[id])
    } else {
        None
    }
}

/// A read of `id` at `now` finds a file.
pub open spec fn is_found(m: Map<Seq<char>, FileModel>, id: Seq<char>, now: (int, int)) -> bool {
    lookup(m, id, now) is Some
}

/// `r` is what a read of `id` at `now` gives.
pub open spec fn read_at(m: Map<Seq<char>, FileModel>, id: Seq<char>, now: (int, int), r: Option<EncryptedFile>) -> bool {
    &&& (r is Some <==> lookup(m, id, now) is Some)
    &&& (r matches Some(f) ==> lookup(m, id, now) == Some(f@))
}

/// The files of `m` that have not expired at `now`.
pub open spec fn unexpired(m: Map<Seq<char>, FileModel>, now: (int, int)) -> Map<Seq<char>, FileModel> {
    Map::new(|k: Seq<char>| m.dom().contains(k) && !is_expired(m[k], now), |k: Seq<char>| m[k])
}

/// The models of a sequence of records.
pub open spec fn models(v: Seq<EncryptedFile>) -> Seq<FileModel> {
    v.map_values(|f: EncryptedFile| f@)
}

/// No two models share an id.
pub open spec fn distinct_ids(s: Seq<FileModel>) -> bool {
    forall|i: int, j: int| 0 <= i < s.len() && 0 <= j < s.len() && i != j ==> s[i].id != s[j].id
}

/// The map from id to record that a sequence of records with distinct ids
/// stands for.
pub open spec fn map_of(s: Seq<FileModel>) -> Map<Seq<char>, FileModel>
    decreases s.len(),
{
    if s.len() == 0 {
        Map::empty()
    } else {
        map_of(s.drop_last()).insert(s.last().id, s.last())
    }
}

proof fn lemma_map_of_dom(s: Seq<FileModel>, k: Seq<char>)
    ensures
        map_of(s).dom().contains(k) <==> exists|i: int| 0 <= i < s.len() && s[i].id == k,
    decreases s.len(),
{
    if s.len() > 0 {
        lemma_map_of_dom(s.drop_last(), k);
        if map_of(s.drop_last()).dom().contains(k) {
            let i = choose|i: int| 0 <= i < s.drop_last().len() && s.drop_last()[i].id == k;
            assert(s[i].id == k);
        }
        if exists|i: int| 0 <= i < s.len() && s[i].id == k {
            let i = choose|i: int| 0 <= i < s.len() && s[i].id == k;
            if i < s.len() - 1 {
                assert(s.drop_last()[i].id == k);
            }
        }
    }
}

proof fn lemma_map_of_finite(s: Seq<FileModel>)
    ensures
        map_of(s).dom().finite(),
        distinct_ids(s) ==> map_of(s).dom().len() == s.len(),
    decreases s.len(),
{
    if s.len() > 0 {
        lemma_map_of_finite(s.drop_last());
        if distinct_ids(s) {
            assert(distinct_ids(s.drop_last()));
            lemma_map_of_dom(s.drop_last(), s.last().id);
            if map_of(s.drop_last()).dom().contains(s.last().id) {
                let i = choose|i: int| 0 <= i < s.drop_last().len() && s.drop_last()[i].id == s.last().id;
                assert(s[i].id == s[s.len() - 1].id);
            }
        }
    }
}

proof fn lemma_map_of_index(s: Seq<FileModel>, i: int)
    requires
        distinct_ids(s),
        0 <= i < s.len(),
    ensures
        map_of(s).dom().contains(s[i].id),
        map_of(s)[s[i].id] == s[i],
    decreases s.len(),
{
    if i < s.len() - 1 {
        assert(distinct_ids(s.drop_last()));
        lemma_map_of_index(s.drop_last(), i);
        assert(s.drop_last()[i] == s[i]);
        assert(s[i].id != s.last().id);
    }
}

proof fn lemma_map_of_remove(s: Seq<FileModel>, i: int)
    requires
        distinct_ids(s),
        0 <= i < s.len(),
    ensures
        distinct_ids(s.remove(i)),
        map_of(s.remove(i)) =~= map_of(s).remove(s[i].id),
{
    let r = s.remove(i);
    assert(distinct_ids(r)) by {
        assert forall|a: int, b: int| 0 <= a < r.len() && 0 <= b < r.len() && a != b implies r[a].id
            != r[b].id by {
            let a2 = if a < i { a } else { a + 1 };
            let b2 = if b < i { b } else { b + 1 };
            assert(r[a] == s[a2]);
            assert(r[b] == s[b2]);
        }
    }
    assert forall|k: Seq<char>| #[trigger] map_of(r).dom().contains(k) <==> map_of(s).remove(
        s[i].id,
    ).dom().contains(k) by {
        lemma_map_of_dom(r, k);
        lemma_map_of_dom(s, k);
        if exists|j: int| 0 <= j < s.len() && s[j].id == k {
            let j = choose|j: int| 0 <= j < s.len() && s[j].id == k;
            if j < i {
                assert(r[j] == s[j]);
            } else if j > i {
                assert(r[j - 1] == s[j]);
            }
        }
        if exists|j: int| 0 <= j < r.len() && r[j].id == k {
            let j = choose|j: int| 0 <= j < r.len() && r[j].id == k;
            let j2 = if j < i { j } else { j + 1 };
            assert(r[j] == s[j2]);
        }
    }
    assert forall|k: Seq<char>| #[trigger] map_of(r).dom().contains(k) implies map_of(r)[k]
        == map_of(s)[k] by {
        lemma_map_of_dom(r, k);
        let j = choose|j: int| 0 <= j < r.len() && r[j].id == k;
        let j2 = if j < i { j } else { j + 1 };
        assert(r[j] == s[j2]);
        lemma_map_of_index(r, j);
        lemma_map_of_index(s, j2);
    }
}

/// Storage of encrypted files by id.
pub struct Storage {
    files: Vec<EncryptedFile>,
    cleanup_interval_secs: u64,
}

impl View for Storage {
    /// The stored files by id, expired ones included.
    type V = Map<Seq<char>, FileModel>;

    closed spec fn view(&self) -> Map<Seq<char>, FileModel> {
        map_of(models(self.files@))
    }
}

impl Storage {
    #[verifier::type_invariant]
    spec fn inv(self) -> bool {
        distinct_ids(models(self.files@))
    }

    /// Empty storage, swept for expired files every 60 seconds.
    pub fn new() -> (r: Storage)
        ensures
            r@ == Map::<Seq<char>, FileModel>::empty(),
            r@.dom().finite(),
            r.cleanup_interval_secs() == CLEANUP_INTERVAL_SECS,
    {
        let r = Storage { files: Vec::new(), cleanup_interval_secs: CLEANUP_INTERVAL_SECS };
        assert(models(r.files@) =~= Seq::<FileModel>::empty());
        r
    }

    pub closed spec fn cleanup_interval_secs(&self) -> u64 {
        self.cleanup_interval_secs
    }

    /// Seconds between two sweeps for expired files.
    pub fn cleanup_interval(&self) -> (r: u64)
        ensures
            r == self.cleanup_interval_secs(),
    {
        self.cleanup_interval_secs
    }

    /// The position of the record with this id, if any.
    fn position(&self, id: &str) -> (r: Option<usize>)
        ensures
            r is Some <==> self@.dom().contains(id@),
            r matches Some(i) ==> i < self.files@.len() && self.files@[i as int].id@ == id@,
    {
        proof {
            use_type_invariant(self);
        }
        let target = id.to_owned();
        let mut i: usize = 0;
        while i < self.files.len()
            invariant
                i <= self.files@.len(),
                target@ == id@,
                forall|j: int| 0 <= j < i ==> self.files@[j].id@ != id@,
            decreases self.files@.len() - i,
        {
            if self.files[i].id == target {
                proof {
                    lemma_map_of_dom(models(self.files@), id@);
                    assert(models(self.files@)[i as int].id == id@);
                }
                return Some(i);
            }
            i = i + 1;
        }
        proof {
            lemma_map_of_dom(models(self.files@), id@);
            if self@.dom().contains(id@) {
                let j = choose|j: int| 0 <= j < models(self.files@).len() && models(self.files@)[j].id == id@;
                assert(self.files@[j].id@ == id@);
            }
        }
        None
    }

    /// Stores a file under its id, in place of any file stored there before.
    pub fn store(&mut self, file: EncryptedFile)
        ensures
            final(self)@ == old(self)@.insert(file@.id, file@),
            final(self)@.dom().finite(),
            final(self).cleanup_interval_secs() == old(self).cleanup_interval_secs(),
    {
        proof {
            use_type_invariant(&*self);
        }
        let ghost f = file@;
        let pos = self.position(file.id.as_str());
        let ghost before = models(self.files@);
        let mut files: Vec<EncryptedFile> = Vec::new();
        std::mem::swap(&mut files, &mut self.files);
        match pos {
            Some(i) => {
                files.remove(i);
                proof {
                    lemma_map_of_remove(before, i as int);
                    assert(models(files@) =~= before.remove(i as int));
                }
            },
            None => {},
        }
        let ghost mid = models(files@);
        proof {
            lemma_map_of_dom(mid, f.id);
            assert forall|j: int| 0 <= j < mid.len() implies mid[j].id != f.id by {
                if mid[j].id == f.id {
                    lemma_map_of_dom(mid, f.id);
                }
            }
        }
        files.push(file);
        proof {
            assert(models(files@) =~= mid.push(f));
            assert(mid.push(f).drop_last() =~= mid);
            assert(distinct_ids(mid.push(f)));
            assert(map_of(mid) =~= old(self)@.remove(f.id));
            assert(map_of(mid.push(f)) =~= old(self)@.insert(f.id, f));
        }
        self.files = files;
        proof {
            lemma_map_of_finite(models(self.files@));
        }
    }

    /// The file stored under `id` as of the instant `now`: `None` where
    /// there is none or where it has expired.
    pub fn get_at(&self, id: &str, now: &Timestamp) -> (r: Option<EncryptedFile>)
        ensures
            read_at(self@, id@, now@, r),
    {
        proof {
            use_type_invariant(self);
        }
        match self.position(id) {
            Some(i) => {
                proof {
                    lemma_map_of_index(models(self.files@), i as int);
                }
                let file = &self.files[i];
                let expired = match &file.expires_at {
                    Some(e) => now.is_after(e),
                    None => false,
                };
                if expired {
                    None
                } else {
                    Some(file.duplicate())
                }
            },
            None => None,
        }
    }

    /// The file stored under `id`, unless it has expired by the clock: what
    /// a read at a reading of the clock gives. A file that has no expiry is
    /// always found.
    pub fn get(&self, id: &str) -> (r: Option<EncryptedFile>)
        ensures
            exists|t: (int, int)| is_clock_reading(t) && #[trigger] read_at(self@, id@, t, r),
            r matches Some(f) ==> self@.dom().contains(id@) && self@[id@] == f@,
            !self@.dom().contains(id@) ==> r is None,
            self@.dom().contains(id@) && self@[id@].expires_at is None ==> r is Some,
    {
        let now = Timestamp::now();
        self.get_at(id, &now)
    }

    /// Removes the file stored under `id`; whether there was one, expired
    /// or not.
    pub fn delete(&mut self, id: &str) -> (r: bool)
        ensures
            r == old(self)@.dom().contains(id@),
            final(self)@ == old(self)@.remove(id@),
            final(self)@.dom().finite(),
            final(self).cleanup_interval_secs() == old(self).cleanup_interval_secs(),
    {
        proof {
            use_type_invariant(&*self);
        }
        let ghost before = models(self.files@);
        match self.position(id) {
            Some(i) => {
                let mut files: Vec<EncryptedFile> = Vec::new();
                std::mem::swap(&mut files, &mut self.files);
                files.remove(i);
                proof {
                    lemma_map_of_remove(before, i as int);
                    assert(models(files@) =~= before.remove(i as int));
                }
                self.files = files;
                proof {
                    lemma_map_of_finite(models(self.files@));
                }
                true
            },
            None => {
                assert(old(self)@.remove(id@) =~= old(self)@);
                proof {
                    lemma_map_of_finite(models(self.files@));
                }
                false
            },
        }
    }

    /// Whether a file is stored under `id` and has not expired at `now`.
    pub fn exists_at(&self, id: &str, now: &Timestamp) -> (r: bool)
        ensures
            r == (lookup(self@, id@, now@) is Some),
    {
        self.get_at(id, now).is_some()
    }

    /// Whether a file is stored under `id` and has not expired by the clock.
    pub fn file_exists(&self, id: &str) -> (r: bool)
        ensures
            exists|t: (int, int)| is_clock_reading(t) && r == #[trigger] is_found(self@, id@, t),
            r ==> self@.dom().contains(id@),
            self@.dom().contains(id@) && self@[id@].expires_at is None ==> r,
    {
        let found = self.get(id);
        proof {
            let t = choose|t: (int, int)| is_clock_reading(t) && #[trigger] read_at(self@, id@, t, found);
            assert(is_found(self@, id@, t) == found is Some);
        }
        found.is_some()
    }

    /// The number of stored files, expired ones included.
    pub fn count(&self) -> (r: usize)
        ensures
            r == self@.len(),
            self@.dom().finite(),
    {
        proof {
            use_type_invariant(self);
            lemma_map_of_finite(models(self.files@));
        }
        self.files.len()
    }

    /// Removes every file that has expired at `now`.
    pub fn remove_expired(&mut self, now: &Timestamp)
        ensures
            final(self)@ == unexpired(old(self)@, now@),
            final(self)@.dom().finite(),
            final(self).cleanup_interval_secs() == old(self).cleanup_interval_secs(),
    {
        proof {
            use_type_invariant(&*self);
        }
        let ghost all = models(self.files@);
        let mut kept: Vec<EncryptedFile> = Vec::new();
        let mut i: usize = 0;
        let n = self.files.len();
        while i < n
            invariant
                n == self.files@.len(),
                all == models(self.files@),
                distinct_ids(all),
                i <= n,
                distinct_ids(models(kept@)),
                forall|j: int| 0 <= j < kept@.len() ==> exists|a: int| 0 <= a < i && #[trigger] kept@[j]@ == all[a],
                map_of(models(kept@)) =~= unexpired(map_of(all.take(i as int)), now@),
            decreases n - i,
        {
            let file = &self.files[i];
            let expired = match &file.expires_at {
                Some(e) => now.is_after(e),
                None => false,
            };
            let ghost prev = models(kept@);
            let ghost f = all[i as int];
            proof {
                assert(all.take(i as int + 1).drop_last() =~= all.take(i as int));
                assert(all.take(i as int + 1).last() == f);
                lemma_map_of_dom(all.take(i as int), f.id);
                assert forall|a: int| 0 <= a < i implies all[a].id != f.id by {}
                if map_of(all.take(i as int)).dom().contains(f.id) {
                    let a = choose|a: int| 0 <= a < all.take(i as int).len() && all.take(i as int)[a].id == f.id;
                    assert(all[a].id == f.id);
                }
            }
            if !expired {
                kept.push(file.duplicate());
                proof {
                    assert(models(kept@) =~= prev.push(f));
                    assert(prev.push(f).drop_last() =~= prev);
                    assert forall|j: int| 0 <= j < prev.len() implies prev[j].id != f.id by {
                        assert(kept@[j]@ == prev[j]);
                        let a = choose|a: int| 0 <= a < i && kept@[j]@ == all[a];
                    }
                    assert(distinct_ids(prev.push(f)));
                    assert(kept@[kept@.len() - 1]@ == all[i as int]);
                }
            } else {
                proof {
                    assert(map_of(prev) =~= unexpired(map_of(all.take(i as int + 1)), now@));
                }
            }
            i = i + 1;
        }
        proof {
            assert(all.take(n as int) =~= all);
        }
        self.files = kept;
        proof {
            lemma_map_of_finite(models(self.files@));
        }
    }
}

/// A stored file is read back as it was stored, until it expires.
pub proof fn law_read_after_store(m: Map<Seq<char>, FileModel>, f: FileModel, now: (int, int))
    ensures
        lookup(m.insert(f.id, f), f.id, now) == if is_expired(f, now) {
            None
        } else {
            Some(f)
        },
{
}

/// Storing under one id leaves reads of every other id as they were.
pub proof fn law_store_keeps_others(
    m: Map<Seq<char>, FileModel>,
    f: FileModel,
    id: Seq<char>,
    now: (int, int),
)
    requires
        id != f.id,
    ensures
        lookup(m.insert(f.id, f), id, now) == lookup(m, id, now),
{
}

/// Once deleted, a file is no longer found, at any instant.
pub proof fn law_read_after_delete(m: Map<Seq<char>, FileModel>, id: Seq<char>, now: (int, int))
    ensures
        lookup(m.remove(id), id, now) is None,
{
}

/// A file without expiry is found at every instant; one with an expiry is
/// found up to that instant and never after.
pub proof fn law_expiry(m: Map<Seq<char>, FileModel>, id: Seq<char>, now: (int, int))
    requires
        m.dom().contains(id),
    ensures
        m[id].expires_at is None ==> lookup(m, id, now) == Some(m[id]),
        m[id].expires_at matches Some(e) ==> (lookup(m, id, now) is Some <==> !is_later(now, e)),
{
}

/// Sweeping the files that expired at `swept` changes no read at that
/// instant or later.
pub proof fn law_sweep_unobservable(
    m: Map<Seq<char>, FileModel>,
    swept: (int, int),
    id: Seq<char>,
    now: (int, int),
)
    requires
        !is_later(swept, now),
    ensures
        lookup(unexpired(m, swept), id, now) == lookup(m, id, now),
{
}

/// After a sweep at `now`, no stored file has expired at `now`.
pub proof fn law_sweep_leaves_no_expired(m: Map<Seq<char>, FileModel>, now: (int, int), id: Seq<char>)
    requires
        unexpired(m, now).dom().contains(id),
    ensures
        !is_expired(unexpired(m, now)[id], now),
{
}

} // verus!
