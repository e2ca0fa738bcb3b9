//! Pools of decoded images under a byte budget, emptied oldest entry first.

use crate::image::{get_image_size_from_handle, FileId, ImageHandle};
use crate::ordered::{
    holds_key, inserted, lemma_position, position, unique_keys, without_key, OrderedCollection,
};
use vstd::prelude::*;

verus! {

/// The bytes that the images of `s` occupy together.
pub open spec fn total_size(s: Seq<(FileId, ImageHandle)>) -> nat
    decreases s.len(),
{
    if s.len() == 0 {
        0
    } else {
        total_size(s.drop_last()) + s.last().1.size()
    }
}

/// Where a scan of `s` in insertion order stops that has reached position `i`
/// with `acc` bytes counted: at the first position where the count has reached
/// `need`, or at the end.
pub open spec fn scanned(s: Seq<(FileId, ImageHandle)>, need: nat, i: nat, acc: nat) -> nat
    decreases s.len() - i,
{
    if acc >= need || i >= s.len() {
        i
    } else {
        scanned(s, need, i + 1, acc + s[i as int].1.size())
    }
}

/// How many of the oldest entries of `s` leave to make room for `need` bytes: the
/// least number whose sizes add up to `need` or more, or all of them.
pub open spec fn evict_count(s: Seq<(FileId, ImageHandle)>, need: nat) -> nat {
    scanned(s, need, 0, 0)
}

/// The pool `s` under the budget `budget` after a put of `handle` under `key`.
///
/// An image larger than the budget is refused and the pool stays as it is. An
/// image that fits beside the entries is stored. Else the oldest entries leave
/// first, as many as `evict_count` says, and then the image is stored.
pub open spec fn after_put(
    s: Seq<(FileId, ImageHandle)>,
    budget: nat,
    key: FileId,
    handle: ImageHandle,
) -> Seq<(FileId, ImageHandle)> {
    if handle.size() > budget {
        s
    } else if total_size(s) + handle.size() <= budget {
        inserted(s, key, handle)
    } else {
        inserted(s.skip(evict_count(s, handle.size()) as int), key, handle)
    }
}

/// The size of a prefix grows by the size of the entry that it takes in.
pub proof fn lemma_total_step(s: Seq<(FileId, ImageHandle)>, i: int)
    requires
        0 <= i < s.len(),
    ensures
        total_size(s.take(i + 1)) == total_size(s.take(i)) + s[i].1.size(),
{
    assert(s.take(i + 1).drop_last() =~= s.take(i));
}

/// The size of a pool is the size of any prefix plus the size of the rest.
pub proof fn lemma_total_split(s: Seq<(FileId, ImageHandle)>, n: int)
    requires
        0 <= n <= s.len(),
    ensures
        total_size(s) == total_size(s.take(n)) + total_size(s.skip(n)),
    decreases s.len(),
{
    if n == s.len() {
        assert(s.take(n) =~= s);
        assert(s.skip(n) =~= Seq::<(FileId, ImageHandle)>::empty());
    } else {
        let d = s.drop_last();
        lemma_total_split(d, n);
        assert(d.take(n) =~= s.take(n));
        assert(d.skip(n) =~= s.skip(n).drop_last());
        assert(s.skip(n).last() == s.last());
    }
}

/// Replacing the entry at position `i` changes the size by the difference of the
/// two images.
pub proof fn lemma_total_update(s: Seq<(FileId, ImageHandle)>, i: int, e: (FileId, ImageHandle))
    requires
        0 <= i < s.len(),
    ensures
        total_size(s.update(i, e)) + s[i].1.size() == total_size(s) + e.1.size(),
{
    let u = s.update(i, e);
    lemma_total_split(s, i + 1);
    lemma_total_split(u, i + 1);
    lemma_total_step(s, i);
    lemma_total_step(u, i);
    assert(u.take(i) =~= s.take(i));
    assert(u.skip(i + 1) =~= s.skip(i + 1));
}

/// Taking the entry at position `i` out lowers the size by the size of its image.
pub proof fn lemma_total_remove(s: Seq<(FileId, ImageHandle)>, i: int)
    requires
        0 <= i < s.len(),
    ensures
        total_size(s.remove(i)) + s[i].1.size() == total_size(s),
{
    let r = s.remove(i);
    lemma_total_split(s, i + 1);
    lemma_total_step(s, i);
    lemma_total_split(r, i);
    assert(r.take(i) =~= s.take(i));
    assert(r.skip(i) =~= s.skip(i + 1));
}

/// What a scan finds from a position on, given what holds up to that position.
proof fn lemma_scanned(s: Seq<(FileId, ImageHandle)>, need: nat, i: nat, acc: nat)
    requires
        i <= s.len(),
        acc == total_size(s.take(i as int)),
        forall|m: int| 0 <= m < i ==> total_size(#[trigger] s.take(m)) < need,
    ensures
        ({
            let n = scanned(s, need, i, acc);
            &&& i <= n <= s.len()
            &&& (total_size(s.take(n as int)) >= need || n == s.len())
            &&& forall|m: int| 0 <= m < n ==> total_size(#[trigger] s.take(m)) < need
        }),
    decreases s.len() - i,
{
    if acc >= need || i >= s.len() {
    } else {
        lemma_total_step(s, i as int);
        lemma_scanned(s, need, i + 1, acc + s[i as int].1.size());
    }
}

/// Eviction takes the oldest entries and no more than needed: the entries that
/// leave are a prefix of the insertion order whose sizes reach `need` (or the
/// whole pool, where even that does not), and no shorter prefix reaches it.
pub proof fn lemma_evict_count(s: Seq<(FileId, ImageHandle)>, need: nat)
    ensures
        evict_count(s, need) <= s.len(),
        total_size(s.take(evict_count(s, need) as int)) >= need || evict_count(s, need)
            == s.len(),
        forall|m: int|
            0 <= m < evict_count(s, need) ==> total_size(#[trigger] s.take(m)) < need,
{
    assert(s.take(0) =~= Seq::<(FileId, ImageHandle)>::empty());
    lemma_scanned(s, need, 0, 0);
}

/// Storing an image adds at most its size to a pool, and keeps the keys unique.
pub proof fn lemma_inserted(s: Seq<(FileId, ImageHandle)>, key: FileId, handle: ImageHandle)
    requires
        unique_keys(s),
    ensures
        unique_keys(inserted(s, key, handle)),
        total_size(inserted(s, key, handle)) <= total_size(s) + handle.size(),
{
    let r = inserted(s, key, handle);
    if holds_key(s, key@) {
        lemma_position(s, key@);
        let p = position(s, key@);
        lemma_total_update(s, p, (s[p].0, handle));
        assert forall|a: int, b: int| 0 <= a < b < r.len() implies (#[trigger] r[a]).0@ != (
        #[trigger] r[b]).0@ by {
            assert(r[a].0 == s[a].0);
            assert(r[b].0 == s[b].0);
        }
    } else {
        assert(r.drop_last() =~= s);
        assert forall|a: int, b: int| 0 <= a < b < r.len() implies (#[trigger] r[a]).0@ != (
        #[trigger] r[b]).0@ by {
            assert(r[a] == s[a]);
            if b < s.len() {
                assert(r[b] == s[b]);
            }
        }
    }
}

/// The budget holds. A pool within its budget is within it after any put,
/// whatever the image, and its keys stay unique.
pub proof fn lemma_put_within_budget(
    s: Seq<(FileId, ImageHandle)>,
    budget: nat,
    key: FileId,
    handle: ImageHandle,
)
    requires
        unique_keys(s),
        total_size(s) <= budget,
    ensures
        unique_keys(after_put(s, budget, key, handle)),
        total_size(after_put(s, budget, key, handle)) <= budget,
{
    if handle.size() > budget {
    } else if total_size(s) + handle.size() <= budget {
        lemma_inserted(s, key, handle);
    } else {
        let n = evict_count(s, handle.size()) as int;
        lemma_evict_count(s, handle.size());
        lemma_total_split(s, n);
        let r = s.skip(n);
        assert(unique_keys(r)) by {
            assert forall|a: int, b: int| 0 <= a < b < r.len() implies (#[trigger] r[a]).0@ != (
            #[trigger] r[b]).0@ by {
                assert(r[a] == s[a + n]);
                assert(r[b] == s[b + n]);
            }
        }
        if n == s.len() {
            assert(r =~= Seq::<(FileId, ImageHandle)>::empty());
        }
        lemma_inserted(r, key, handle);
    }
}

/// Admission. An image larger than the budget leaves the pool as it was.
pub proof fn lemma_oversize_put_changes_nothing(
    s: Seq<(FileId, ImageHandle)>,
    budget: nat,
    key: FileId,
    handle: ImageHandle,
)
    requires
        handle.size() > budget,
    ensures
        after_put(s, budget, key, handle) == s,
{
}

/// Oldest first. Where a new image does not fit beside the entries but is no
/// larger than the oldest of them, that entry alone leaves, and the others follow
/// in their order with the new image behind them.
pub proof fn lemma_put_evicts_oldest(
    s: Seq<(FileId, ImageHandle)>,
    budget: nat,
    key: FileId,
    handle: ImageHandle,
)
    requires
        s.len() > 0,
        total_size(s) <= budget,
        handle.size() <= budget,
        total_size(s) + handle.size() > budget,
        handle.size() <= s[0].1.size(),
        !holds_key(s.skip(1), key@),
    ensures
        after_put(s, budget, key, handle) == s.skip(1).push((key, handle)),
{
    let need = handle.size();
    assert(scanned(s, need, 0, 0) == scanned(s, need, 1, s[0].1.size()));
    assert(scanned(s, need, 1, s[0].1.size()) == 1);
}

/// The bytes that a pool made by `default` may hold.
pub const MAX_CACHE_SIZE: usize = 100_000_000;

/// Why a put was refused: the image alone is larger than the pool's budget.
#[derive(Debug, Clone, Copy, PartialEq, Eq)]
pub struct CacheAdmissionError {
    /// The size of the image that was refused.
    pub size: usize,
    /// The budget of the pool.
    pub max_size: usize,
}

/// A pool of decoded images, kept in the order of insertion, whose sizes add up
/// to no more than a budget.
#[derive(Debug)]
pub struct ThumbnailCache {
    thumbnails: OrderedCollection<FileId, ImageHandle>,
    max_size: usize,
}

impl View for ThumbnailCache {
    type V = Seq<(FileId, ImageHandle)>;

    closed spec fn view(&self) -> Seq<(FileId, ImageHandle)> {
        self.thumbnails@
    }
}

impl Default for ThumbnailCache {
    fn default() -> (cache: Self)
        ensures
            cache@ == Seq::<(FileId, ImageHandle)>::empty(),
            cache.budget() == MAX_CACHE_SIZE,
    {
        Self::new(MAX_CACHE_SIZE)
    }
}

impl ThumbnailCache {
    #[verifier::type_invariant]
    spec fn within_budget(self) -> bool {
        total_size(self.thumbnails@) <= self.max_size
    }

    /// The budget of the pool in bytes.
    pub closed spec fn budget(&self) -> nat {
        self.max_size as nat
    }

    /// Moves the entries out and leaves the pool empty.
    fn take_pool(&mut self) -> (pool: OrderedCollection<FileId, ImageHandle>)
        ensures
            pool@ == old(self)@,
            total_size(pool@) <= old(self).budget(),
            final(self)@ == Seq::<(FileId, ImageHandle)>::empty(),
            final(self).budget() == old(self).budget(),
    {
        proof {
            use_type_invariant(&*self);
        }
        let mut pool: OrderedCollection<FileId, ImageHandle> = OrderedCollection::new();
        std::mem::swap(&mut pool, &mut self.thumbnails);
        pool
    }

    /// An empty pool with a budget of `max_size` bytes.
    pub fn new(max_size: usize) -> (cache: Self)
        ensures
            cache@ == Seq::<(FileId, ImageHandle)>::empty(),
            cache.budget() == max_size,
    {
        Self { thumbnails: OrderedCollection::new(), max_size }
    }

    /// The budget of the pool in bytes.
    pub fn max_size(&self) -> (max_size: usize)
        ensures
            max_size == self.budget(),
    {
        self.max_size
    }

    /// Stores `thumbnail` under `thumbnail_id`, making room by letting the oldest
    /// entries go. An image larger than the whole budget is refused, and nothing
    /// changes.
    pub fn put_thumbnail(&mut self, thumbnail_id: FileId, thumbnail: ImageHandle) -> (outcome:
        Result<(), CacheAdmissionError>)
        ensures
            final(self).budget() == old(self).budget(),
            final(self)@ == after_put(old(self)@, old(self).budget(), thumbnail_id, thumbnail),
            total_size(final(self)@) <= final(self).budget(),
            match outcome {
                Ok(()) => thumbnail.size() <= old(self).budget(),
                Err(e) => thumbnail.size() > old(self).budget() && e.size == thumbnail.size()
                    && e.max_size == old(self).budget(),
            },
    {
        proof {
            use_type_invariant(&*self);
        }
        let thumbnail_size: usize = get_image_size_from_handle(&thumbnail);
        if thumbnail_size > self.max_size {
            return Err(CacheAdmissionError { size: thumbnail_size, max_size: self.max_size });
        }
        let cache_size: usize = self.len();
        let mut pool = self.take_pool();
        let ghost s = pool@;
        let ghost need = thumbnail_size as nat;
        let len: usize = pool.len();
        proof {
            lemma_put_within_budget(s, self.max_size as nat, thumbnail_id, thumbnail);
        }
        if thumbnail_size > self.max_size - cache_size {
            let mut current_size: usize = 0;
            let mut remove_upto: usize = 0;
            proof {
                assert(s.take(0) =~= Seq::<(FileId, ImageHandle)>::empty());
            }
            while remove_upto < len && current_size < thumbnail_size
                invariant
                    pool@ == s,
                    len == s.len(),
                    need == thumbnail_size,
                    remove_upto <= len,
                    current_size == total_size(s.take(remove_upto as int)),
                    total_size(s) <= usize::MAX,
                    scanned(s, need, remove_upto as nat, current_size as nat) == evict_count(
                        s,
                        need,
                    ),
                decreases len - remove_upto,
            {
                proof {
                    lemma_total_step(s, remove_upto as int);
                    lemma_total_split(s, remove_upto as int + 1);
                }
                match pool.get_index(remove_upto) {
                    Some((_, handle)) => {
                        current_size = current_size + get_image_size_from_handle(handle);
                    },
                    None => {},
                }
                remove_upto = remove_upto + 1;
            }
            let mut removed: usize = 0;
            while removed < remove_upto
                invariant
                    removed <= remove_upto <= s.len(),
                    pool@ == s.skip(removed as int),
                decreases remove_upto - removed,
            {
                let ghost before = pool@;
                pool.shift_remove_index(0);
                proof {
                    assert(before.remove(0) =~= s.skip(removed as int + 1));
                }
                removed = removed + 1;
            }
        }
        pool.insert(thumbnail_id, thumbnail);
        self.thumbnails = pool;
        Ok(())
    }

    /// The bytes that the images of the pool occupy together.
    pub fn len(&self) -> (bytes: usize)
        ensures
            bytes == total_size(self@),
            bytes <= self.budget(),
    {
        proof {
            use_type_invariant(self);
        }
        let count: usize = self.thumbnails.len();
        let ghost s = self.thumbnails@;
        let mut bytes: usize = 0;
        let mut index: usize = 0;
        proof {
            assert(s.take(0) =~= Seq::<(FileId, ImageHandle)>::empty());
        }
        while index < count
            invariant
                self.thumbnails@ == s,
                count == s.len(),
                index <= count,
                bytes == total_size(s.take(index as int)),
                total_size(s) <= usize::MAX,
            decreases count - index,
        {
            proof {
                lemma_total_step(s, index as int);
                lemma_total_split(s, index as int + 1);
            }
            match self.thumbnails.get_index(index) {
                Some((_, handle)) => {
                    bytes = bytes + get_image_size_from_handle(handle);
                },
                None => {},
            }
            index = index + 1;
        }
        proof {
            assert(s.take(count as int) =~= s);
        }
        bytes
    }

    /// Whether the pool occupies no byte.
    pub fn is_empty(&self) -> (empty: bool)
        ensures
            empty == (total_size(self@) < 1),
    {
        self.len() < 1
    }

    /// Whether the pool holds an image under `thumbnail_id`.
    pub fn has_thumbnail(&self, thumbnail_id: &FileId) -> (held: bool)
        ensures
            held == holds_key(self@, thumbnail_id@),
    {
        self.thumbnails.contains_key(thumbnail_id)
    }

    /// The image stored under `thumbnail_id`. A lookup changes nothing, and does
    /// not count when entries are let go.
    pub fn get_thumbnail(&self, thumbnail_id: &FileId) -> (found: Option<&ImageHandle>)
        ensures
            match found {
                Some(handle) => holds_key(self@, thumbnail_id@) && *handle == self@[position(
                    self@,
                    thumbnail_id@,
                )].1,
                None => !holds_key(self@, thumbnail_id@),
            },
    {
        self.thumbnails.get(thumbnail_id)
    }

    /// Lets the image under `thumbnail_id` go, if there is one; the other entries
    /// keep their order.
    pub fn invalidate_thumbnail(&mut self, thumbnail_id: &FileId)
        ensures
            final(self).budget() == old(self).budget(),
            final(self)@ == without_key(old(self)@, thumbnail_id@),
            total_size(final(self)@) <= total_size(old(self)@),
    {
        let mut pool = self.take_pool();
        proof {
            if holds_key(pool@, thumbnail_id@) {
                lemma_position(pool@, thumbnail_id@);
                lemma_total_remove(pool@, position(pool@, thumbnail_id@));
            }
        }
        pool.remove(thumbnail_id);
        self.thumbnails = pool;
    }
}

/// The pools of a [`BoundedImageCache`].
#[derive(Debug, Clone, Copy, PartialEq, Eq)]
pub enum Pool {
    Thumbnail,
    MiniThumbnail,
    Avatar,
    ProfileAvatar,
    Emote,
}

/// Five pools of images, each under a budget of its own.
#[derive(Debug)]
pub struct BoundedImageCache {
    pub thumbnails: ThumbnailCache,
    pub minithumbnails: ThumbnailCache,
    pub avatars: ThumbnailCache,
    pub profile_avatars: ThumbnailCache,
    pub emotes: ThumbnailCache,
}

impl Default for BoundedImageCache {
    fn default() -> (cache: Self)
        ensures
            forall|pool: Pool|
                (#[trigger] cache.pool(pool))@ == Seq::<(FileId, ImageHandle)>::empty()
                    && cache.pool(pool).budget() == MAX_CACHE_SIZE,
    {
        Self::new(MAX_CACHE_SIZE)
    }
}

impl BoundedImageCache {
    /// The pool that `pool` names.
    pub open spec fn pool(&self, pool: Pool) -> ThumbnailCache {
        match pool {
            Pool::Thumbnail => self.thumbnails,
            Pool::MiniThumbnail => self.minithumbnails,
            Pool::Avatar => self.avatars,
            Pool::ProfileAvatar => self.profile_avatars,
            Pool::Emote => self.emotes,
        }
    }

    /// Empty pools with a budget of `max_size` bytes each.
    pub fn new(max_size: usize) -> (cache: Self)
        ensures
            forall|pool: Pool|
                (#[trigger] cache.pool(pool))@ == Seq::<(FileId, ImageHandle)>::empty()
                    && cache.pool(pool).budget() == max_size,
    {
        Self::with_budgets(max_size, max_size, max_size, max_size, max_size)
    }

    /// Empty pools with the given budgets in bytes.
    pub fn with_budgets(
        thumbnails: usize,
        minithumbnails: usize,
        avatars: usize,
        profile_avatars: usize,
        emotes: usize,
    ) -> (cache: Self)
        ensures
            forall|pool: Pool|
                (#[trigger] cache.pool(pool))@ == Seq::<(FileId, ImageHandle)>::empty(),
            cache.thumbnails.budget() == thumbnails,
            cache.minithumbnails.budget() == minithumbnails,
            cache.avatars.budget() == avatars,
            cache.profile_avatars.budget() == profile_avatars,
            cache.emotes.budget() == emotes,
    {
        Self {
            thumbnails: ThumbnailCache::new(thumbnails),
            minithumbnails: ThumbnailCache::new(minithumbnails),
            avatars: ThumbnailCache::new(avatars),
            profile_avatars: ThumbnailCache::new(profile_avatars),
            emotes: ThumbnailCache::new(emotes),
        }
    }

    /// Stores `blob` under `key` in the pool that `pool` names, as
    /// [`ThumbnailCache::put_thumbnail`] does. The other pools stay as they are.
    pub fn put(&mut self, pool: Pool, key: FileId, blob: ImageHandle) -> (outcome: Result<
        (),
        CacheAdmissionError,
    >)
        ensures
            final(self).pool(pool).budget() == old(self).pool(pool).budget(),
            final(self).pool(pool)@ == after_put(
                old(self).pool(pool)@,
                old(self).pool(pool).budget(),
                key,
                blob,
            ),
            total_size(final(self).pool(pool)@) <= final(self).pool(pool).budget(),
            forall|other: Pool| other != pool ==> final(self).pool(other) == old(self).pool(other),
            match outcome {
                Ok(()) => blob.size() <= old(self).pool(pool).budget(),
                Err(e) => blob.size() > old(self).pool(pool).budget() && e.size == blob.size()
                    && e.max_size == old(self).pool(pool).budget(),
            },
    {
        match pool {
            Pool::Thumbnail => self.thumbnails.put_thumbnail(key, blob),
            Pool::MiniThumbnail => self.minithumbnails.put_thumbnail(key, blob),
            Pool::Avatar => self.avatars.put_thumbnail(key, blob),
            Pool::ProfileAvatar => self.profile_avatars.put_thumbnail(key, blob),
            Pool::Emote => self.emotes.put_thumbnail(key, blob),
        }
    }

    /// The image stored under `key` in the pool that `pool` names.
    pub fn get(&self, pool: Pool, key: &FileId) -> (found: Option<&ImageHandle>)
        ensures
            match found {
                Some(handle) => holds_key(self.pool(pool)@, key@) && *handle == self.pool(
                    pool,
                )@[position(self.pool(pool)@, key@)].1,
                None => !holds_key(self.pool(pool)@, key@),
            },
    {
        match pool {
            Pool::Thumbnail => self.thumbnails.get_thumbnail(key),
            Pool::MiniThumbnail => self.minithumbnails.get_thumbnail(key),
            Pool::Avatar => self.avatars.get_thumbnail(key),
            Pool::ProfileAvatar => self.profile_avatars.get_thumbnail(key),
            Pool::Emote => self.emotes.get_thumbnail(key),
        }
    }

    /// The image stored under `key` in the pool `first`, or else the one in the
    /// pool `second`.
    pub fn get_with_fallback(&self, first: Pool, second: Pool, key: &FileId) -> (found: Option<
        &ImageHandle,
    >)
        ensures
            match found {
                Some(handle) => if holds_key(self.pool(first)@, key@) {
                    *handle == self.pool(first)@[position(self.pool(first)@, key@)].1
                } else {
                    holds_key(self.pool(second)@, key@) && *handle == self.pool(
                        second,
                    )@[position(self.pool(second)@, key@)].1
                },
                None => !holds_key(self.pool(first)@, key@) && !holds_key(
                    self.pool(second)@,
                    key@,
                ),
            },
    {
        match self.get(first, key) {
            Some(handle) => Some(handle),
            None => self.get(second, key),
        }
    }

    /// Lets the image under `key` in the pool that `pool` names go, if there is
    /// one. The other pools stay as they are.
    pub fn invalidate(&mut self, pool: Pool, key: &FileId)
        ensures
            final(self).pool(pool).budget() == old(self).pool(pool).budget(),
            final(self).pool(pool)@ == without_key(old(self).pool(pool)@, key@),
            forall|other: Pool| other != pool ==> final(self).pool(other) == old(self).pool(other),
    {
        match pool {
            Pool::Thumbnail => self.thumbnails.invalidate_thumbnail(key),
            Pool::MiniThumbnail => self.minithumbnails.invalidate_thumbnail(key),
            Pool::Avatar => self.avatars.invalidate_thumbnail(key),
            Pool::ProfileAvatar => self.profile_avatars.invalidate_thumbnail(key),
            Pool::Emote => self.emotes.invalidate_thumbnail(key),
        }
    }
}

} // verus!
