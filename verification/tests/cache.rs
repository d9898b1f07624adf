use koharu::buffer::ImageBuf;
use koharu::buffer::MaskBuf;
use koharu::cache::RegionCache;
use koharu::error::CommandError;

fn pair(v: u8) -> (ImageBuf, MaskBuf) {
    (
        ImageBuf::new(vec![v; 16], 2, 2).unwrap(),
        MaskBuf::new(vec![v; 4], 2, 2).unwrap(),
    )
}

#[test]
fn get_before_prime_is_a_cache_miss() {
    let cache = RegionCache::new();
    assert!(matches!(cache.get(), Err(CommandError::CacheMiss)));
}

#[test]
fn prime_then_get_returns_the_pair() {
    let mut cache = RegionCache::new();
    let (img, mask) = pair(9);
    cache.prime(img, mask);
    let entry = cache.get().unwrap();
    assert_eq!(entry.image.data, vec![9u8; 16]);
    assert_eq!(entry.mask.data, vec![9u8; 4]);
}

#[test]
fn prime_replaces_the_prior_entry() {
    let mut cache = RegionCache::new();
    let (a_img, a_mask) = pair(1);
    cache.prime(a_img, a_mask);
    let (b_img, b_mask) = pair(2);
    cache.prime(b_img, b_mask);
    assert_eq!(cache.get().unwrap().image.data, vec![2u8; 16]);
}

#[test]
fn clear_empties_the_slot() {
    let mut cache = RegionCache::new();
    let (img, mask) = pair(3);
    cache.prime(img, mask);
    cache.clear();
    assert!(cache.get().is_err());
    // Clearing an empty cache is fine too.
    cache.clear();
    assert!(cache.get().is_err());
}
