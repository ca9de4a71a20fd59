//! The durable, deduplicated image store.
//!
//! `ImageCache` keeps the images together with their deduplication index: a
//! count, the set of perceptual hashes of everything stored, and the time of
//! the last successful append. Its whole behaviour is specified against
//! `CacheModel`, a mathematical model of that state, through the transition
//! functions `spec_initialize` and `spec_add_image`; the laws at the end of
//! the module are proved over those transitions.
//!
//! Durability is the caller's half: the process around the store persists each
//! newly-stored image under its reported index and rewrites the timestamp
//! record, and on the next start hands the scanned files back to
//! `initialize`, which reproduces the index (see `lemma_restart_durability`).

use vstd::prelude::*;

use crate::clock::unix_now;
use crate::errors::CacheError;
use crate::hashing::{decodable, decode_and_hash, phash_of};
use crate::rng::random_index;

verus! {

/// Age of the last successful append, in seconds, at which the store counts
/// as stale: one day.
pub const STALE_AFTER_SECONDS: u64 = 86400;

/// What a successful append did.
#[derive(Debug, Clone, Copy, PartialEq, Eq, Structural)]
pub enum AddOutcome {
    /// The image was novel and is now stored under this index.
    Added(u32),
    /// A perceptually identical image was already stored; nothing was written.
    Duplicate,
}

/// The mathematical model of the store's state.
#[verifier::ext_equal]
pub struct CacheModel {
    /// UNIX time of the most recent successful append.
    pub updated_seconds: u64,
    /// Number of stored images; also the index the next novel image receives.
    pub count: nat,
    /// Number of successful appends since initialization.
    pub generation: nat,
    /// Whether the startup scan has completed.
    pub init: bool,
    /// The perceptual hash of every stored image.
    pub hashes: Set<Seq<char>>,
    /// The stored images themselves, in index order.
    pub images: Seq<Seq<u8>>,
}

/// The set of perceptual hashes over a sequence of stored images.
pub open spec fn spec_image_hashes(images: Seq<Seq<u8>>) -> Set<Seq<char>> {
    images.map_values(|b: Seq<u8>| phash_of(b)).to_set()
}

impl CacheModel {
    /// A store that has not been initialized: empty in every respect.
    pub open spec fn empty() -> CacheModel {
        CacheModel {
            updated_seconds: 0,
            count: 0,
            generation: 0,
            init: false,
            hashes: Set::empty(),
            images: Seq::empty(),
        }
    }

    /// The store's invariant: the count equals the number of stored images,
    /// the hash set is exactly the set of hashes of the stored images, every
    /// stored image decodes, appends never outnumber images, and before
    /// initialization nothing is stored at all.
    pub open spec fn wf(self) -> bool {
        &&& self.images.len() == self.count
        &&& self.init ==> {
            &&& self.hashes == spec_image_hashes(self.images)
            &&& forall|i: int| 0 <= i < self.images.len() ==> decodable(#[trigger] self.images[i])
            &&& self.generation <= self.count
        }
        &&& !self.init ==> self == CacheModel::empty()
    }
}

/// The state after one append of `img` at time `now`. An append on an
/// uninitialized store, of bytes that do not decode, or of an image whose
/// hash is already present changes nothing; otherwise the image is stored,
/// its hash recorded, and the counters and timestamp advance.
pub open spec fn spec_add_image(s: CacheModel, img: Seq<u8>, now: u64) -> CacheModel {
    if !s.init || !decodable(img) || s.hashes.contains(phash_of(img)) {
        s
    } else {
        CacheModel {
            updated_seconds: now,
            count: s.count + 1,
            generation: s.generation + 1,
            init: true,
            hashes: s.hashes.insert(phash_of(img)),
            images: s.images.push(img),
        }
    }
}

/// What one append of `img` reports: the error for an uninitialized store or
/// undecodable bytes, `Duplicate` for an already-present hash, and otherwise
/// `Added` with the index the image receives.
pub open spec fn spec_add_result(s: CacheModel, img: Seq<u8>) -> Result<AddOutcome, CacheError> {
    if !s.init {
        Err(CacheError::Uninitialized)
    } else if !decodable(img) {
        Err(CacheError::DecodeError)
    } else if s.hashes.contains(phash_of(img)) {
        Ok(AddOutcome::Duplicate)
    } else {
        Ok(AddOutcome::Added(s.count as u32))
    }
}

/// The state a successful startup scan produces from the scanned images and
/// the persisted timestamp. Without a readable timestamp the store defaults
/// to "now" when images were found and to zero when empty.
pub open spec fn spec_initialize(
    images: Seq<Seq<u8>>,
    persisted: Option<u64>,
    now: u64,
) -> CacheModel {
    CacheModel {
        updated_seconds: match persisted {
            Some(t) => t,
            None => if images.len() > 0 {
                now
            } else {
                0
            },
        },
        count: images.len(),
        generation: 0,
        init: true,
        hashes: spec_image_hashes(images),
        images: images,
    }
}

/// Staleness at time `now`: an uninitialized store, an empty store, or a last
/// successful append at least a day old.
pub open spec fn spec_is_stale(s: CacheModel, now: u64) -> bool {
    ||| !s.init
    ||| s.count == 0
    ||| now >= s.updated_seconds + STALE_AFTER_SECONDS
}

/// The durable, deduplicated image store with its in-memory index.
pub struct ImageCache {
    updated_seconds: u64,
    cnt: u32,
    generation: u32,
    init: bool,
    hashes: Vec<String>,
    images: Vec<Vec<u8>>,
}

impl View for ImageCache {
    type V = CacheModel;

    closed spec fn view(&self) -> CacheModel {
        CacheModel {
            updated_seconds: self.updated_seconds,
            count: self.cnt as nat,
            generation: self.generation as nat,
            init: self.init,
            hashes: self.hashes.deep_view().to_set(),
            images: self.images.deep_view(),
        }
    }
}

/// Whether one of the recorded hash strings equals `h`.
fn contains_hash(hashes: &Vec<String>, h: &String) -> (r: bool)
    ensures
        r == hashes.deep_view().to_set().contains(h@),
{
    let ghost hs = hashes.deep_view();
    let mut i: usize = 0;
    while i < hashes.len()
        invariant
            0 <= i <= hashes.len(),
            hs == hashes.deep_view(),
            forall|j: int| 0 <= j < i ==> hs[j] != h@,
        decreases hashes.len() - i,
    {
        if hashes[i] == *h {
            proof {
                assert(hs[i as int] == h@);
                assert(hs.contains(h@));
            }
            return true;
        }
        i += 1;
    }
    proof {
        assert(forall|j: int| 0 <= j < hs.len() ==> hs[j] != h@);
        assert(!hs.contains(h@));
    }
    false
}

impl ImageCache {
    /// The store's invariant; every operation preserves it.
    pub open spec fn wf(self) -> bool {
        self@.wf()
    }

    /// A fresh store: empty and not yet initialized. Every operation but
    /// `initialize` fails or reports emptiness until the startup scan runs.
    pub fn new() -> (r: ImageCache)
        ensures
            r.wf(),
            r@ == CacheModel::empty(),
    {
        let r = ImageCache {
            updated_seconds: 0,
            cnt: 0,
            generation: 0,
            init: false,
            hashes: Vec::new(),
            images: Vec::new(),
        };
        proof {
            assert(r.hashes.deep_view() =~= Seq::<Seq<char>>::empty());
            assert(r.images.deep_view() =~= Seq::<Seq<u8>>::empty());
            assert(r@.hashes =~= Set::<Seq<char>>::empty());
            assert(r@ =~= CacheModel::empty());
        }
        r
    }

    /// Runs the startup scan's accounting: takes the raw images found on
    /// stable storage in index order and the persisted timestamp (if it was
    /// readable), recomputes every perceptual hash, and installs count, hash
    /// set and timestamp in one step. Fails with `InitializationRace` when the
    /// store is already initialized and with `StorageError` when any scanned
    /// entry fails to decode; either failure leaves the store unchanged.
    pub fn initialize(
        &mut self,
        scanned: Vec<Vec<u8>>,
        persisted: Option<u64>,
        now: u64,
    ) -> (r: Result<(), CacheError>)
        requires
            old(self).wf(),
            scanned@.len() <= u32::MAX,
        ensures
            final(self).wf(),
            old(self)@.init ==> r == Err::<(), CacheError>(CacheError::InitializationRace)
                && final(self)@ == old(self)@,
            !old(self)@.init && (exists|i: int|
                0 <= i < scanned.deep_view().len() && !decodable(
                    #[trigger] scanned.deep_view()[i],
                )) ==> r == Err::<(), CacheError>(CacheError::StorageError) && final(self)@ == old(
                self,
            )@,
            !old(self)@.init && (forall|i: int|
                0 <= i < scanned.deep_view().len() ==> decodable(#[trigger] scanned.deep_view()[i]))
                ==> r == Ok::<(), CacheError>(()) && final(self)@ == spec_initialize(
                scanned.deep_view(),
                persisted,
                now,
            ),
    {
        if self.init {
            return Err(CacheError::InitializationRace);
        }
        let ghost simgs = scanned.deep_view();
        let mut hashes: Vec<String> = Vec::new();
        let mut idx: usize = 0;
        proof {
            assert(hashes.deep_view() =~= Seq::<Seq<char>>::empty());
            assert(hashes.deep_view().to_set() =~= spec_image_hashes(simgs.take(0)));
        }
        while idx < scanned.len()
            invariant
                0 <= idx <= scanned.len(),
                scanned.deep_view() == simgs,
                *self == *old(self),
                !old(self)@.init,
                old(self).wf(),
                forall|i: int| 0 <= i < idx ==> decodable(#[trigger] simgs[i]),
                hashes.deep_view().to_set() == spec_image_hashes(simgs.take(idx as int)),
            decreases scanned.len() - idx,
        {
            let ghost pre_hashes = hashes.deep_view();
            proof {
                assert(simgs[idx as int] =~= scanned@[idx as int]@);
            }
            match decode_and_hash(&scanned[idx]) {
                None => {
                    proof {
                        assert(!decodable(simgs[idx as int]));
                    }
                    return Err(CacheError::StorageError);
                },
                Some(h) => {
                    proof {
                        assert(h@ == phash_of(simgs[idx as int]));
                        assert(decodable(simgs[idx as int]));
                    }
                    hashes.push(h);
                    proof {
                        broadcast use vstd::prelude::Seq::lemma_push_map_commute;
                        broadcast use vstd::prelude::Seq::lemma_push_to_set_commute;

                        let pre = simgs.take(idx as int);
                        let post = simgs.take(idx as int + 1);
                        assert(hashes.deep_view() =~= pre_hashes.push(h@));
                        assert(post =~= pre.push(simgs[idx as int]));
                        assert(spec_image_hashes(post) =~= spec_image_hashes(pre).insert(
                            phash_of(simgs[idx as int]),
                        ));
                        assert(hashes.deep_view().to_set() =~= pre_hashes.to_set().insert(h@));
                        assert(hashes.deep_view().to_set() == spec_image_hashes(post));
                    }
                },
            }
            idx += 1;
        }
        let ts: u64 = match persisted {
            Some(t) => t,
            None => if scanned.len() > 0 {
                now
            } else {
                0
            },
        };
        self.updated_seconds = ts;
        self.cnt = scanned.len() as u32;
        self.generation = 0;
        self.hashes = hashes;
        self.images = scanned;
        self.init = true;
        proof {
            assert(simgs.take(simgs.len() as int) =~= simgs);
            assert(self@ =~~= spec_initialize(simgs, persisted, now));
            assert(forall|i: int| 0 <= i < simgs.len() ==> decodable(#[trigger] simgs[i]));
        }
        Ok(())
    }

    /// Serves one stored image, chosen at random among all of them, as a copy
    /// of its exact bytes. Fails with `EmptyCache` on a store without images.
    pub fn get_random_image(&self) -> (r: Result<Vec<u8>, CacheError>)
        requires
            self.wf(),
        ensures
            self@.count == 0 ==> r == Err::<Vec<u8>, CacheError>(CacheError::EmptyCache),
            self@.count > 0 ==> (r matches Ok(img) && exists|i: int|
                0 <= i < self@.images.len() && img@ == #[trigger] self@.images[i]),
    {
        if self.cnt == 0 {
            return Err(CacheError::EmptyCache);
        }
        let idx: u32 = random_index(self.cnt);
        let img = self.images[idx as usize].clone();
        proof {
            assert(img@ =~= self.images@[idx as int]@);
            assert(img@ == self@.images[idx as int]);
        }
        Ok(img)
    }

    /// Appends a candidate image: decodes it, hashes it, and stores it under
    /// the next index unless a perceptually identical image is already
    /// present, in which case the append is a successful no-op. The result,
    /// the new state, and exactly when each error occurs are fixed by
    /// `spec_add_result` and `spec_add_image`.
    pub fn add_image(&mut self, img: Vec<u8>, now: u64) -> (r: Result<AddOutcome, CacheError>)
        requires
            old(self).wf(),
            old(self)@.count < u32::MAX,
        ensures
            final(self).wf(),
            r == spec_add_result(old(self)@, img@),
            final(self)@ == spec_add_image(old(self)@, img@, now),
    {
        if !self.init {
            return Err(CacheError::Uninitialized);
        }
        let h = match decode_and_hash(&img) {
            None => {
                return Err(CacheError::DecodeError);
            },
            Some(h) => h,
        };
        if contains_hash(&self.hashes, &h) {
            return Ok(AddOutcome::Duplicate);
        }
        let ghost pre = self@;
        let idx: u32 = self.cnt;
        self.images.push(img);
        self.hashes.push(h);
        self.updated_seconds = now;
        self.cnt = self.cnt + 1;
        self.generation = self.generation + 1;
        proof {
            broadcast use vstd::prelude::Seq::lemma_push_to_set_commute;

            assert(self.images.deep_view() =~~= pre.images.push(img@));
            assert(self.hashes.deep_view() =~= old(self).hashes.deep_view().push(h@));
            assert(self@.hashes =~= pre.hashes.insert(phash_of(img@)));
            assert(self@ =~~= spec_add_image(pre, img@, now));
            lemma_add_preserves_wf(pre, img@, now);
        }
        Ok(AddOutcome::Added(idx))
    }

    /// Staleness at the given time, per `spec_is_stale`: uninitialized, empty,
    /// or last updated at least a day before `now`.
    pub fn is_stale_at(&self, now: u64) -> (r: bool)
        ensures
            r == spec_is_stale(self@, now),
    {
        !self.init || self.cnt == 0 || (now >= self.updated_seconds && now - self.updated_seconds
            >= STALE_AFTER_SECONDS)
    }

    /// Staleness against the process clock. Whatever the clock reads, an
    /// uninitialized or empty store is stale.
    pub fn is_stale(&self) -> (r: bool)
        ensures
            !self@.init || self@.count == 0 ==> r,
    {
        let now = unix_now();
        self.is_stale_at(now)
    }

    /// The number of images currently stored.
    pub fn get_items_count(&self) -> (r: u32)
        ensures
            r as nat == self@.count,
    {
        self.cnt
    }
}

/// One append keeps the store's invariant.
proof fn lemma_add_preserves_wf(s: CacheModel, img: Seq<u8>, now: u64)
    requires
        s.wf(),
    ensures
        spec_add_image(s, img, now).wf(),
{
    broadcast use vstd::prelude::Seq::lemma_push_map_commute;
    broadcast use vstd::prelude::Seq::lemma_push_to_set_commute;

    let s2 = spec_add_image(s, img, now);
    if s.init && decodable(img) && !s.hashes.contains(phash_of(img)) {
        let f = |b: Seq<u8>| phash_of(b);
        assert(s.images.push(img).map_values(f) =~= s.images.map_values(f).push(f(img)));
        assert(spec_image_hashes(s.images.push(img)) =~= s.hashes.insert(phash_of(img)));
        assert(forall|i: int|
            0 <= i < s2.images.len() ==> decodable(#[trigger] s2.images[i]));
    }
}

/// Dedup idempotence law: submitting the same bytes twice stores at most one
/// image. The first append stores the image exactly when its hash is novel;
/// the second append never changes the count.
pub proof fn lemma_dedup_idempotent(s: CacheModel, img: Seq<u8>, now1: u64, now2: u64)
    requires
        s.init,
        decodable(img),
    ensures
        ({
            let s1 = spec_add_image(s, img, now1);
            let s2 = spec_add_image(s1, img, now2);
            &&& s2 == s1
            &&& (!s.hashes.contains(phash_of(img)) ==> s1.count == s.count + 1)
            &&& (s.hashes.contains(phash_of(img)) ==> s1.count == s.count)
        }),
{
    let s1 = spec_add_image(s, img, now1);
    assert(s1.hashes.contains(phash_of(img)));
}

/// Hash-equivalence law: two byte encodings of a perceptually identical image
/// collide on the hash, so only the first is stored; the second submission
/// reports `Duplicate` and changes nothing.
pub proof fn lemma_hash_equivalent_dedup(
    s: CacheModel,
    a: Seq<u8>,
    b: Seq<u8>,
    now1: u64,
    now2: u64,
)
    requires
        s.init,
        decodable(a),
        decodable(b),
        phash_of(a) == phash_of(b),
        !s.hashes.contains(phash_of(a)),
    ensures
        ({
            let s1 = spec_add_image(s, a, now1);
            let s2 = spec_add_image(s1, b, now2);
            &&& s1.images == s.images.push(a)
            &&& s1.count == s.count + 1
            &&& s2 == s1
            &&& spec_add_result(s1, b) == Ok::<AddOutcome, CacheError>(AddOutcome::Duplicate)
        }),
{
    let s1 = spec_add_image(s, a, now1);
    assert(s1.hashes.contains(phash_of(b)));
}

/// Exclusivity law: two novel, perceptually distinct images submitted to the
/// serialized append receive distinct indices, both hashes are recorded, and
/// the count grows by exactly two. This is the pairwise form of the claim
/// that concurrent appends, which the write lock serializes, never share an
/// index or overwrite one another.
pub proof fn lemma_distinct_append_indices(
    s: CacheModel,
    a: Seq<u8>,
    b: Seq<u8>,
    now1: u64,
    now2: u64,
)
    requires
        s.init,
        decodable(a),
        decodable(b),
        phash_of(a) != phash_of(b),
        !s.hashes.contains(phash_of(a)),
        !s.hashes.contains(phash_of(b)),
        s.count + 1 < u32::MAX,
    ensures
        ({
            let s1 = spec_add_image(s, a, now1);
            let s2 = spec_add_image(s1, b, now2);
            &&& spec_add_result(s, a) == Ok::<AddOutcome, CacheError>(
                AddOutcome::Added(s.count as u32),
            )
            &&& spec_add_result(s1, b) == Ok::<AddOutcome, CacheError>(
                AddOutcome::Added((s.count + 1) as u32),
            )
            &&& s.count as u32 != (s.count + 1) as u32
            &&& s2.count == s.count + 2
            &&& s2.hashes.contains(phash_of(a))
            &&& s2.hashes.contains(phash_of(b))
        }),
{
}

/// The state after a whole batch of appends, one image after the other, as
/// the write lock serializes them.
pub open spec fn spec_add_all(s: CacheModel, imgs: Seq<Seq<u8>>, now: u64) -> CacheModel
    decreases imgs.len(),
{
    if imgs.len() == 0 {
        s
    } else {
        spec_add_all(spec_add_image(s, imgs[0], now), imgs.skip(1), now)
    }
}

/// Exclusivity law, batch form: a batch of decodable images with pairwise
/// distinct hashes, none of them stored yet, grows the count by exactly the
/// batch's size, and records exactly that many new hashes.
pub proof fn lemma_batch_append_count(s: CacheModel, imgs: Seq<Seq<u8>>, now: u64)
    requires
        s.init,
        s.hashes.finite(),
        forall|i: int| 0 <= i < imgs.len() ==> decodable(#[trigger] imgs[i]),
        forall|i: int, j: int|
            0 <= i < j < imgs.len() ==> phash_of(imgs[i]) != phash_of(imgs[j]),
        forall|i: int| 0 <= i < imgs.len() ==> !s.hashes.contains(phash_of(#[trigger] imgs[i])),
    ensures
        ({
            let s2 = spec_add_all(s, imgs, now);
            &&& s2.count == s.count + imgs.len()
            &&& s2.hashes.finite()
            &&& s2.hashes.len() == s.hashes.len() + imgs.len()
        }),
    decreases imgs.len(),
{
    broadcast use vstd::set::axiom_set_insert_len;

    if imgs.len() > 0 {
        let s1 = spec_add_image(s, imgs[0], now);
        let rest = imgs.skip(1);
        assert(forall|i: int| 0 <= i < rest.len() ==> rest[i] == imgs[i + 1]);
        assert(forall|i: int|
            0 <= i < rest.len() ==> !s1.hashes.contains(phash_of(#[trigger] rest[i])));
        lemma_batch_append_count(s1, rest, now);
    }
}

/// Staleness law: at the moment an append stores a novel image, the store is
/// not stale — it is initialized, holds at least one image, and its last
/// update is that very moment. (An append that merely reports `Duplicate`
/// leaves the timestamp alone and gives no such guarantee.)
pub proof fn lemma_fresh_after_add(s: CacheModel, img: Seq<u8>, now: u64)
    requires
        s.init,
        decodable(img),
        !s.hashes.contains(phash_of(img)),
    ensures
        spec_add_result(s, img) is Ok,
        !spec_is_stale(spec_add_image(s, img, now), now),
{
}

/// Restart durability law: initializing a fresh store from exactly the images
/// a well-formed store holds, with its persisted timestamp, reproduces the
/// count, the hash set and the timestamp — nothing needs to be fetched again.
pub proof fn lemma_restart_durability(s: CacheModel, now: u64)
    requires
        s.wf(),
        s.init,
    ensures
        ({
            let s2 = spec_initialize(s.images, Some(s.updated_seconds), now);
            &&& s2.count == s.count
            &&& s2.hashes == s.hashes
            &&& s2.updated_seconds == s.updated_seconds
            &&& s2.images == s.images
            &&& s2.wf()
        }),
{
    let s2 = spec_initialize(s.images, Some(s.updated_seconds), now);
    assert(s2.hashes == s.hashes);
}

} // verus!
