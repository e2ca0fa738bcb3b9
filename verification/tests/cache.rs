use chat_model::cache::{
    BoundedImageCache, CacheAdmissionError, Pool, ThumbnailCache, MAX_CACHE_SIZE,
};
use chat_model::image::{get_image_size_from_handle, FileId, ImageHandle};
use chat_model::ordered::Key;

fn id(name: &str) -> FileId {
    FileId::Id(name.to_string())
}

fn blob(size: usize) -> ImageHandle {
    ImageHandle::Bytes(vec![7u8; size])
}

fn held(cache: &ThumbnailCache, names: &[&str]) -> Vec<bool> {
    names.iter().map(|n| cache.has_thumbnail(&id(n))).collect()
}

#[test]
fn size_of_a_handle_is_the_length_of_its_data() {
    assert_eq!(get_image_size_from_handle(&ImageHandle::Bytes(vec![1, 2, 3])), 3);
    assert_eq!(get_image_size_from_handle(&ImageHandle::Bytes(vec![])), 0);
    let pixels = ImageHandle::Pixels { width: 2, height: 3, pixels: vec![0; 24] };
    assert_eq!(get_image_size_from_handle(&pixels), 24);
}

#[test]
fn file_ids_are_the_same_by_kind_and_text() {
    assert!(id("a").same_key(&id("a")));
    assert!(!id("a").same_key(&id("b")));
    assert!(!id("a").same_key(&FileId::Hmc("a".to_string())));
    assert!(!FileId::External("a".to_string()).same_key(&FileId::Hmc("a".to_string())));
    assert!(FileId::Hmc("h".to_string()).same_key(&FileId::Hmc("h".to_string())));
    assert!(FileId::External("e".to_string()).same_key(&FileId::External("e".to_string())));
}

#[test]
fn new_pool_is_empty() {
    let cache = ThumbnailCache::new(100);
    assert_eq!(cache.len(), 0);
    assert!(cache.is_empty());
    assert_eq!(cache.max_size(), 100);
    assert!(!cache.has_thumbnail(&id("a")));
    assert!(cache.get_thumbnail(&id("a")).is_none());
}

#[test]
fn default_pool_holds_a_hundred_megabytes() {
    assert_eq!(MAX_CACHE_SIZE, 100_000_000);
    let cache = ThumbnailCache::default();
    assert_eq!(cache.max_size(), 100_000_000);
    assert!(cache.is_empty());
}

#[test]
fn third_image_of_forty_evicts_the_first_only() {
    let mut cache = ThumbnailCache::new(100);
    assert_eq!(cache.put_thumbnail(id("A"), blob(40)), Ok(()));
    assert_eq!(cache.put_thumbnail(id("B"), blob(40)), Ok(()));
    assert_eq!(cache.len(), 80);
    assert_eq!(cache.put_thumbnail(id("C"), blob(40)), Ok(()));
    assert_eq!(held(&cache, &["A", "B", "C"]), vec![false, true, true]);
    assert_eq!(cache.len(), 80);
}

#[test]
fn oldest_entry_leaves_before_the_others() {
    let mut cache = ThumbnailCache::new(100);
    cache.put_thumbnail(id("A"), blob(30)).unwrap();
    cache.put_thumbnail(id("B"), blob(30)).unwrap();
    cache.put_thumbnail(id("C"), blob(30)).unwrap();
    cache.put_thumbnail(id("D"), blob(20)).unwrap();
    assert_eq!(held(&cache, &["A", "B", "C", "D"]), vec![false, true, true, true]);
    assert_eq!(cache.len(), 80);
}

#[test]
fn as_many_of_the_oldest_leave_as_the_new_image_needs() {
    let mut cache = ThumbnailCache::new(100);
    cache.put_thumbnail(id("A"), blob(30)).unwrap();
    cache.put_thumbnail(id("B"), blob(30)).unwrap();
    cache.put_thumbnail(id("C"), blob(30)).unwrap();
    cache.put_thumbnail(id("D"), blob(50)).unwrap();
    assert_eq!(held(&cache, &["A", "B", "C", "D"]), vec![false, false, true, true]);
    assert_eq!(cache.len(), 80);
}

#[test]
fn image_of_the_whole_budget_evicts_all() {
    let mut cache = ThumbnailCache::new(100);
    cache.put_thumbnail(id("A"), blob(30)).unwrap();
    cache.put_thumbnail(id("B"), blob(30)).unwrap();
    assert_eq!(cache.put_thumbnail(id("C"), blob(100)), Ok(()));
    assert_eq!(held(&cache, &["A", "B", "C"]), vec![false, false, true]);
    assert_eq!(cache.len(), 100);
}

#[test]
fn oversize_image_is_refused_and_pool_unchanged() {
    let mut cache = ThumbnailCache::new(100);
    cache.put_thumbnail(id("A"), blob(40)).unwrap();
    cache.put_thumbnail(id("B"), blob(40)).unwrap();
    assert_eq!(
        cache.put_thumbnail(id("C"), blob(101)),
        Err(CacheAdmissionError { size: 101, max_size: 100 })
    );
    assert_eq!(held(&cache, &["A", "B", "C"]), vec![true, true, false]);
    assert_eq!(cache.len(), 80);
}

#[test]
fn pool_without_budget_takes_empty_images_only() {
    let mut cache = ThumbnailCache::new(0);
    assert_eq!(
        cache.put_thumbnail(id("A"), blob(1)),
        Err(CacheAdmissionError { size: 1, max_size: 0 })
    );
    assert_eq!(cache.put_thumbnail(id("B"), blob(0)), Ok(()));
    assert!(cache.has_thumbnail(&id("B")));
    assert!(cache.is_empty());
}

#[test]
fn budget_holds_after_every_put() {
    let mut cache = ThumbnailCache::new(100);
    let sizes = [10usize, 50, 45, 100, 1, 99, 33, 33, 33, 33, 0, 70, 31, 100, 100];
    for (n, size) in sizes.iter().enumerate() {
        assert_eq!(cache.put_thumbnail(id(&format!("k{}", n % 7)), blob(*size)), Ok(()));
        assert!(cache.len() <= 100);
        assert!(cache.has_thumbnail(&id(&format!("k{}", n % 7))));
    }
}

#[test]
fn put_under_a_held_key_replaces_the_image_in_place() {
    let mut cache = ThumbnailCache::new(100);
    cache.put_thumbnail(id("A"), blob(30)).unwrap();
    cache.put_thumbnail(id("B"), blob(30)).unwrap();
    cache.put_thumbnail(id("A"), blob(35)).unwrap();
    assert_eq!(cache.len(), 65);
    assert_eq!(get_image_size_from_handle(cache.get_thumbnail(&id("A")).unwrap()), 35);
    cache.put_thumbnail(id("C"), blob(35)).unwrap();
    assert_eq!(cache.len(), 100);
    // A kept the first place: it is the first to leave.
    cache.put_thumbnail(id("D"), blob(35)).unwrap();
    assert_eq!(held(&cache, &["A", "B", "C", "D"]), vec![false, true, true, true]);
    assert_eq!(cache.len(), 100);
}

#[test]
fn lookup_does_not_save_an_entry_from_eviction() {
    let mut cache = ThumbnailCache::new(100);
    cache.put_thumbnail(id("A"), blob(40)).unwrap();
    cache.put_thumbnail(id("B"), blob(40)).unwrap();
    assert!(cache.get_thumbnail(&id("A")).is_some());
    assert!(cache.has_thumbnail(&id("A")));
    cache.put_thumbnail(id("C"), blob(40)).unwrap();
    assert_eq!(held(&cache, &["A", "B", "C"]), vec![false, true, true]);
}

#[test]
fn get_returns_the_stored_image() {
    let mut cache = ThumbnailCache::new(100);
    cache
        .put_thumbnail(id("A"), ImageHandle::Pixels { width: 1, height: 2, pixels: vec![9; 8] })
        .unwrap();
    match cache.get_thumbnail(&id("A")) {
        Some(ImageHandle::Pixels { width, height, pixels }) => {
            assert_eq!((*width, *height), (1, 2));
            assert_eq!(pixels, &vec![9u8; 8]);
        }
        other => panic!("unexpected {:?}", other),
    }
    assert!(cache.get_thumbnail(&FileId::Hmc("A".to_string())).is_none());
}

#[test]
fn invalidate_removes_one_entry() {
    let mut cache = ThumbnailCache::new(100);
    cache.put_thumbnail(id("A"), blob(30)).unwrap();
    cache.put_thumbnail(id("B"), blob(30)).unwrap();
    cache.put_thumbnail(id("C"), blob(30)).unwrap();
    cache.invalidate_thumbnail(&id("A"));
    assert_eq!(held(&cache, &["A", "B", "C"]), vec![false, true, true]);
    assert_eq!(cache.len(), 60);
    cache.invalidate_thumbnail(&id("A"));
    assert_eq!(cache.len(), 60);
    // The order of the others stayed: B is the oldest now.
    cache.put_thumbnail(id("D"), blob(40)).unwrap();
    cache.put_thumbnail(id("E"), blob(20)).unwrap();
    assert_eq!(held(&cache, &["B", "C", "D", "E"]), vec![false, true, true, true]);
    assert_eq!(cache.len(), 90);
}

#[test]
fn pools_are_independent() {
    let mut cache = BoundedImageCache::new(100);
    assert_eq!(cache.put(Pool::Avatar, id("A"), blob(60)), Ok(()));
    assert_eq!(cache.put(Pool::Emote, id("A"), blob(70)), Ok(()));
    assert_eq!(cache.put(Pool::Thumbnail, id("T"), blob(100)), Ok(()));
    assert_eq!(cache.put(Pool::MiniThumbnail, id("M"), blob(1)), Ok(()));
    assert_eq!(cache.put(Pool::ProfileAvatar, id("P"), blob(2)), Ok(()));
    assert_eq!(cache.avatars.len(), 60);
    assert_eq!(cache.emotes.len(), 70);
    assert_eq!(cache.thumbnails.len(), 100);
    assert_eq!(cache.minithumbnails.len(), 1);
    assert_eq!(cache.profile_avatars.len(), 2);
    assert_eq!(get_image_size_from_handle(cache.get(Pool::Avatar, &id("A")).unwrap()), 60);
    assert_eq!(get_image_size_from_handle(cache.get(Pool::Emote, &id("A")).unwrap()), 70);
    assert!(cache.get(Pool::Thumbnail, &id("A")).is_none());
    cache.invalidate(Pool::Avatar, &id("A"));
    assert!(cache.get(Pool::Avatar, &id("A")).is_none());
    assert!(cache.get(Pool::Emote, &id("A")).is_some());
}

#[test]
fn pools_have_budgets_of_their_own() {
    let mut cache = BoundedImageCache::with_budgets(10, 20, 30, 40, 50);
    assert_eq!(cache.thumbnails.max_size(), 10);
    assert_eq!(cache.minithumbnails.max_size(), 20);
    assert_eq!(cache.avatars.max_size(), 30);
    assert_eq!(cache.profile_avatars.max_size(), 40);
    assert_eq!(cache.emotes.max_size(), 50);
    assert_eq!(
        cache.put(Pool::Thumbnail, id("A"), blob(11)),
        Err(CacheAdmissionError { size: 11, max_size: 10 })
    );
    assert_eq!(cache.put(Pool::MiniThumbnail, id("A"), blob(11)), Ok(()));
    let all = BoundedImageCache::default();
    assert_eq!(all.emotes.max_size(), MAX_CACHE_SIZE);
}

#[test]
fn lookup_falls_back_to_a_second_pool() {
    let mut cache = BoundedImageCache::new(100);
    cache.put(Pool::Avatar, id("both"), blob(1)).unwrap();
    cache.put(Pool::Thumbnail, id("both"), blob(2)).unwrap();
    cache.put(Pool::Thumbnail, id("second"), blob(3)).unwrap();
    cache.put(Pool::Emote, id("other"), blob(4)).unwrap();
    let size = |found: Option<&ImageHandle>| found.map(get_image_size_from_handle);
    assert_eq!(size(cache.get_with_fallback(Pool::Avatar, Pool::Thumbnail, &id("both"))), Some(1));
    assert_eq!(size(cache.get_with_fallback(Pool::Thumbnail, Pool::Avatar, &id("both"))), Some(2));
    assert_eq!(size(cache.get_with_fallback(Pool::Avatar, Pool::Thumbnail, &id("second"))), Some(3));
    assert_eq!(size(cache.get_with_fallback(Pool::Avatar, Pool::Thumbnail, &id("other"))), None);
}
