//! The resource cache: deduplicated, reference-tracked audio assets.
//!
//! Assets are keyed by their source path. Decoding a file is I/O and happens
//! outside this library; the caller hands the outcome of one decode attempt
//! to [`ResourceLoader::store`], which caches it. A path that is already
//! cached is never stored again — decoding for a given key is at most once —
//! and every caller receives a handle to the same buffer allocation.
//! [`ResourceLoader::collect`], run from the reclamation domain, releases
//! buffers that no handle outside the cache references any more; the release
//! goes through the reclaimed-handle primitive, never a direct free.

use vstd::prelude::*;

use crate::pcm::AnyPcm;
use crate::reclaim::{
    shared_pcm_clone, shared_pcm_id, shared_pcm_is_unique, shared_pcm_new, shared_pcm_view,
};
use crate::timebase::SampleRate;

verus! {

/// Why an asset could not be loaded. Non-fatal: a failed load for one clip
/// never corrupts the cache for others.
#[derive(Debug, PartialEq)]
pub enum PcmLoadError {
    NotFound,
    UnsupportedFormat,
    DecodeFailure(String),
    IoError(String),
}

impl Clone for PcmLoadError {
    fn clone(&self) -> (r: Self)
        ensures
            r == *self,
    {
        match self {
            PcmLoadError::NotFound => PcmLoadError::NotFound,
            PcmLoadError::UnsupportedFormat => PcmLoadError::UnsupportedFormat,
            PcmLoadError::DecodeFailure(s) => PcmLoadError::DecodeFailure(s.clone()),
            PcmLoadError::IoError(s) => PcmLoadError::IoError(s.clone()),
        }
    }
}

/// A load failure attributed to the asset path it concerns, collected as a
/// warning alongside an otherwise successful operation.
#[derive(Debug, PartialEq)]
pub struct ResourceLoadError {
    pub pcm_path: String,
    pub error: PcmLoadError,
}

/// One cache slot: the outcome of the single decode attempt made for a path.
pub struct PcmCacheEntry {
    pub path: String,
    pub result: Result<basedrop::Shared<AnyPcm>, PcmLoadError>,
}

/// What the cache knows about a path.
pub enum FetchResult {
    Loaded(basedrop::Shared<AnyPcm>),
    Failed(PcmLoadError),
    Missing,
}

pub open spec fn contains_path(s: Seq<PcmCacheEntry>, path: Seq<char>) -> bool {
    exists|i: int| 0 <= i < s.len() && (#[trigger] s[i]).path@ == path
}

/// The slot for a path; meaningful only when `contains_path` holds and
/// paths are distinct.
pub open spec fn entry_at(s: Seq<PcmCacheEntry>, path: Seq<char>) -> PcmCacheEntry {
    s[choose|i: int| 0 <= i < s.len() && (#[trigger] s[i]).path@ == path]
}

pub open spec fn paths_distinct(s: Seq<PcmCacheEntry>) -> bool {
    forall|i: int, j: int| 0 <= i < j < s.len() ==> (#[trigger] s[i]).path@ != (
    #[trigger] s[j]).path@
}

/// Two slots hold the same path and equivalent outcomes: handles to the same
/// allocation with the same content, or the same error.
pub open spec fn entry_matches(a: PcmCacheEntry, b: PcmCacheEntry) -> bool {
    &&& a.path@ == b.path@
    &&& match (a.result, b.result) {
        (Ok(x), Ok(y)) => shared_pcm_id(&x) == shared_pcm_id(&y) && shared_pcm_view(&x)
            == shared_pcm_view(&y),
        (Err(e1), Err(e2)) => e1 == e2,
        _ => false,
    }
}

/// The deduplicating cache of decoded audio assets.
pub struct ResourceLoader {
    entries: Vec<PcmCacheEntry>,
    coll_handle: basedrop::Handle,
    sample_rate: SampleRate,
}

impl ResourceLoader {
    pub closed spec fn cache(self) -> Seq<PcmCacheEntry> {
        self.entries@
    }

    pub closed spec fn spec_sample_rate(self) -> SampleRate {
        self.sample_rate
    }

    pub open spec fn wf(self) -> bool {
        paths_distinct(self.cache())
    }

    pub fn new(coll_handle: basedrop::Handle, sample_rate: SampleRate) -> (r: ResourceLoader)
        ensures
            r.wf(),
            r.cache().len() == 0,
            r.spec_sample_rate() == sample_rate,
    {
        ResourceLoader { entries: Vec::new(), coll_handle, sample_rate }
    }

    pub fn sample_rate(&self) -> (r: SampleRate)
        ensures
            r == self.spec_sample_rate(),
    {
        self.sample_rate
    }

    pub fn cached_count(&self) -> (r: usize)
        ensures
            r == self.cache().len(),
    {
        self.entries.len()
    }

    fn find(&self, path: &String) -> (r: Option<usize>)
        ensures
            match r {
                Some(i) => i < self.cache().len() && self.cache()[i as int].path@ == path@,
                None => !contains_path(self.cache(), path@),
            },
    {
        let mut k: usize = 0;
        while k < self.entries.len()
            invariant
                k <= self.entries@.len(),
                forall|j: int| 0 <= j < k ==> (#[trigger] self.entries@[j]).path@ != path@,
            decreases self.entries@.len() - k,
        {
            if self.entries[k].path == *path {
                return Some(k);
            }
            k += 1;
        }
        None
    }

    /// What one decode attempt for this path produced, if one was made.
    pub fn fetch(&self, path: &String) -> (r: FetchResult)
        requires
            self.wf(),
        ensures
            match r {
                FetchResult::Loaded(s) => {
                    &&& contains_path(self.cache(), path@)
                    &&& entry_at(self.cache(), path@).result is Ok
                    &&& shared_pcm_id(&s) == shared_pcm_id(
                        &entry_at(self.cache(), path@).result->Ok_0,
                    )
                    &&& shared_pcm_view(&s) == shared_pcm_view(
                        &entry_at(self.cache(), path@).result->Ok_0,
                    )
                },
                FetchResult::Failed(e) => {
                    &&& contains_path(self.cache(), path@)
                    &&& entry_at(self.cache(), path@).result == Err::<
                        basedrop::Shared<AnyPcm>,
                        PcmLoadError,
                    >(e)
                },
                FetchResult::Missing => !contains_path(self.cache(), path@),
            },
    {
        let found = self.find(path);
        match found {
            None => FetchResult::Missing,
            Some(i) => {
                proof {
                    lemma_cache_entry_at(self.cache(), path@, i as int);
                }
                match &self.entries[i].result {
                    Ok(s) => FetchResult::Loaded(shared_pcm_clone(s)),
                    Err(e) => FetchResult::Failed(e.clone()),
                }
            },
        }
    }

    /// Caches the outcome of one decode attempt. If the path is already
    /// cached the attempt is discarded and the cached outcome returned, so
    /// that every holder shares one buffer allocation.
    pub fn store(&mut self, path: String, decoded: Result<AnyPcm, PcmLoadError>) -> (r: Result<
        basedrop::Shared<AnyPcm>,
        PcmLoadError,
    >)
        requires
            old(self).wf(),
        ensures
            final(self).wf(),
            final(self).spec_sample_rate() == old(self).spec_sample_rate(),
            contains_path(final(self).cache(), path@),
            entry_result_matches(entry_at(final(self).cache(), path@), r),
            contains_path(old(self).cache(), path@) ==> {
                &&& final(self).cache() == old(self).cache()
                &&& entry_result_matches(entry_at(old(self).cache(), path@), r)
            },
            !contains_path(old(self).cache(), path@) ==> {
                &&& final(self).cache().len() == old(self).cache().len() + 1
                &&& final(self).cache().subrange(0, old(self).cache().len() as int) == old(
                    self,
                ).cache()
                &&& final(self).cache().last().path@ == path@
                &&& match decoded {
                    Ok(pcm) => final(self).cache().last().result is Ok && shared_pcm_view(
                        &final(self).cache().last().result->Ok_0,
                    ) == pcm@ && r is Ok,
                    Err(e) => final(self).cache().last().result == Err::<
                        basedrop::Shared<AnyPcm>,
                        PcmLoadError,
                    >(e) && r == Err::<basedrop::Shared<AnyPcm>, PcmLoadError>(e),
                }
            },
    {
        let found = self.find(&path);
        if let Some(i) = found {
            proof {
                lemma_cache_entry_at(self.cache(), path@, i as int);
            }
            return match &self.entries[i].result {
                Ok(s) => Ok(shared_pcm_clone(s)),
                Err(e) => Err(e.clone()),
            };
        }
        let ghost before = self.entries@;
        let result = match decoded {
            Ok(pcm) => {
                let s = shared_pcm_new(&self.coll_handle, pcm);
                let alias = shared_pcm_clone(&s);
                self.entries.push(PcmCacheEntry { path, result: Ok(s) });
                Ok(alias)
            },
            Err(e) => {
                let copy = e.clone();
                self.entries.push(PcmCacheEntry { path, result: Err(e) });
                Err(copy)
            },
        };
        proof {
            let cache = self.entries@;
            let n = cache.len() - 1;
            assert(cache.last().path@ == path@);
            assert(contains_path(cache, path@));
            assert forall|i: int, j: int| 0 <= i < j < cache.len() implies (
            #[trigger] cache[i]).path@ != (#[trigger] cache[j]).path@ by {
                if j < n {
                    assert(before[i].path@ != before[j].path@);
                } else {
                    assert(cache[i] == before[i]);
                    assert(!contains_path(before, path@));
                }
            }
            lemma_cache_entry_at(cache, path@, n);
            assert(cache.subrange(0, before.len() as int) =~= before);
        }
        result
    }

    /// Releases every cached buffer that only the cache itself still
    /// references. Which slots those are depends on what handles the rest of
    /// the process holds, so the contract states what holds either way:
    /// surviving slots are unchanged slots of the old cache, and every
    /// recorded failure survives.
    pub fn collect(&mut self)
        requires
            old(self).wf(),
        ensures
            final(self).wf(),
            final(self).spec_sample_rate() == old(self).spec_sample_rate(),
            forall|p: Seq<char>| contains_path(final(self).cache(), p) ==> contains_path(
                old(self).cache(),
                p,
            ) && entry_matches(
                entry_at(final(self).cache(), p),
                entry_at(old(self).cache(), p),
            ),
            forall|p: Seq<char>| contains_path(old(self).cache(), p) && entry_at(
                old(self).cache(),
                p,
            ).result is Err ==> contains_path(final(self).cache(), p),
    {
        let mut remaining: Vec<PcmCacheEntry> = Vec::new();
        std::mem::swap(&mut remaining, &mut self.entries);
        let ghost orig = remaining@;
        let mut kept: Vec<PcmCacheEntry> = Vec::new();
        let ghost mut processed: int = 0;
        while remaining.len() > 0
            invariant
                processed == orig.len() - remaining@.len(),
                0 <= processed <= orig.len(),
                remaining@ == orig.subrange(processed, orig.len() as int),
                paths_distinct(orig),
                paths_distinct(kept@),
                forall|m: int| 0 <= m < kept@.len() ==> exists|j: int|
                    0 <= j < processed && entry_matches(#[trigger] kept@[m], orig[j]),
                forall|j: int| 0 <= j < processed && (#[trigger] orig[j]).result is Err ==>
                    contains_path(kept@, orig[j].path@),
            decreases remaining@.len(),
        {
            let entry = remaining.remove(0);
            proof {
                assert(entry == orig[processed]);
                assert(remaining@ =~= orig.subrange(processed + 1, orig.len() as int));
            }
            let ghost prev = kept@;
            let PcmCacheEntry { path, result } = entry;
            let keep: Option<PcmCacheEntry> = match result {
                Err(e) => Some(PcmCacheEntry { path, result: Err(e) }),
                Ok(mut s) => {
                    if shared_pcm_is_unique(&mut s) {
                        // The cache holds the only live handle: dropping it
                        // here queues the buffer on the collector.
                        None
                    } else {
                        Some(PcmCacheEntry { path, result: Ok(s) })
                    }
                },
            };
            if let Some(e) = keep {
                kept.push(e);
                proof {
                    assert(entry_matches(kept@.last(), orig[processed]));
                }
            }
            proof {
                let cur = kept@;
                assert forall|j: int| 0 <= j < processed + 1 && (#[trigger] orig[j]).result is Err
                    implies contains_path(cur, orig[j].path@) by {
                    if j < processed {
                        let m = choose|m: int|
                            0 <= m < prev.len() && (#[trigger] prev[m]).path@ == orig[j].path@;
                        assert(cur[m] == prev[m]);
                        assert(contains_path(cur, orig[j].path@));
                    } else {
                        assert(cur.last().path@ == orig[processed].path@);
                    }
                }
                assert forall|m: int| 0 <= m < cur.len() implies exists|j: int|
                    0 <= j < processed + 1 && entry_matches(#[trigger] cur[m], orig[j]) by {
                    if m < prev.len() {
                        let j = choose|j: int|
                            0 <= j < processed && entry_matches(#[trigger] prev[m], orig[j]);
                        assert(cur[m] == prev[m]);
                        assert(entry_matches(cur[m], orig[j]));
                    } else {
                        assert(entry_matches(cur[m], orig[processed]));
                    }
                }
                assert forall|i: int, j: int| 0 <= i < j < cur.len() implies (
                #[trigger] cur[i]).path@ != (#[trigger] cur[j]).path@ by {
                    if j == cur.len() - 1 && cur.len() > prev.len() {
                        let ji = choose|ji: int|
                            0 <= ji < processed && entry_matches(#[trigger] prev[i], orig[ji]);
                        assert(cur[i].path@ == orig[ji].path@);
                        assert(cur[j].path@ == orig[processed].path@);
                    } else {
                        assert(prev[i].path@ != prev[j].path@);
                    }
                }
            }
            proof {
                processed = processed + 1;
            }
        }
        proof {
            assert(orig.subrange(processed, orig.len() as int).len() == 0);
            assert(processed == orig.len());
        }
        self.entries = kept;
        proof {
            let cache = self.entries@;
            assert forall|p: Seq<char>| contains_path(cache, p) implies contains_path(orig, p)
                && entry_matches(entry_at(cache, p), entry_at(orig, p)) by {
                let m = choose|m: int| 0 <= m < cache.len() && (#[trigger] cache[m]).path@ == p;
                lemma_cache_entry_at(cache, p, m);
                let j = choose|j: int|
                    0 <= j < orig.len() && entry_matches(#[trigger] cache[m], orig[j]);
                assert(orig[j].path@ == p);
                lemma_cache_entry_at(orig, p, j);
            }
            assert forall|p: Seq<char>| contains_path(orig, p) && entry_at(orig, p).result is Err
                implies contains_path(cache, p) by {
                let j = choose|j: int| 0 <= j < orig.len() && (#[trigger] orig[j]).path@ == p;
                lemma_cache_entry_at(orig, p, j);
                assert(orig[j].result is Err);
            }
        }
    }
}

/// What the cache answers for a path agrees with its slot for that path.
pub open spec fn entry_result_matches(
    e: PcmCacheEntry,
    r: Result<basedrop::Shared<AnyPcm>, PcmLoadError>,
) -> bool {
    match (e.result, r) {
        (Ok(x), Ok(y)) => shared_pcm_id(&x) == shared_pcm_id(&y) && shared_pcm_view(&x)
            == shared_pcm_view(&y),
        (Err(e1), Err(e2)) => e1 == e2,
        _ => false,
    }
}

/// Any two successful answers the cache gives for one loaded slot are
/// handles to the same buffer allocation with the same content: every
/// caller that loads a path shares one buffer, by identity and not merely
/// by equal content.
pub proof fn lemma_same_buffer_identity(
    e: PcmCacheEntry,
    r1: Result<basedrop::Shared<AnyPcm>, PcmLoadError>,
    r2: Result<basedrop::Shared<AnyPcm>, PcmLoadError>,
)
    requires
        entry_result_matches(e, r1),
        entry_result_matches(e, r2),
        e.result is Ok,
    ensures
        r1 is Ok,
        r2 is Ok,
        shared_pcm_id(&r1->Ok_0) == shared_pcm_id(&r2->Ok_0),
        shared_pcm_view(&r1->Ok_0) == shared_pcm_view(&r2->Ok_0),
{
}

/// If paths are distinct and position `i` holds `path`, then `entry_at`
/// picks that very slot.
pub proof fn lemma_cache_entry_at(s: Seq<PcmCacheEntry>, path: Seq<char>, i: int)
    requires
        paths_distinct(s),
        0 <= i < s.len(),
        s[i].path@ == path,
    ensures
        contains_path(s, path),
        entry_at(s, path) == s[i],
{
    assert(contains_path(s, path));
    let j = choose|j: int| 0 <= j < s.len() && (#[trigger] s[j]).path@ == path;
    if i != j {
        if i < j {
            assert(s[i].path@ != s[j].path@);
        } else {
            assert(s[j].path@ != s[i].path@);
        }
    }
}

} // verus!
