use trackhelm::lru::LruTrackCache;
use trackhelm::voices::{VoicePool, MAX_BACKGROUND_VOICES};

#[test]
fn cache_capacity_is_at_least_two() {
    let mut c: LruTrackCache<u32> = LruTrackCache::new(0);
    c.insert("a".to_string(), 1);
    c.insert("b".to_string(), 2);
    assert_eq!(c.get("a"), Some(1));
    assert_eq!(c.get("b"), Some(2));
}

#[test]
fn cache_read_after_write() {
    let mut c: LruTrackCache<u32> = LruTrackCache::new(3);
    c.insert("song.wav".to_string(), 7);
    assert_eq!(c.get("song.wav"), Some(7));
    assert_eq!(c.get("other.wav"), None);
    c.insert("song.wav".to_string(), 9);
    assert_eq!(c.get("song.wav"), Some(9));
}

#[test]
fn cache_evicts_least_recently_used() {
    let mut c: LruTrackCache<u32> = LruTrackCache::new(2);
    c.insert("a".to_string(), 1);
    c.insert("b".to_string(), 2);
    // touching "a" makes "b" the oldest
    assert_eq!(c.get("a"), Some(1));
    c.insert("c".to_string(), 3);
    assert_eq!(c.get("b"), None);
    assert_eq!(c.get("a"), Some(1));
    assert_eq!(c.get("c"), Some(3));
}

#[test]
fn cache_reinsert_does_not_evict() {
    let mut c: LruTrackCache<u32> = LruTrackCache::new(2);
    c.insert("a".to_string(), 1);
    c.insert("b".to_string(), 2);
    c.insert("a".to_string(), 5);
    assert_eq!(c.get("b"), Some(2));
    assert_eq!(c.get("a"), Some(5));
}

#[test]
fn pool_fills_free_slots_then_displaces_oldest() {
    let mut p: VoicePool<u32> = VoicePool::new();
    assert_eq!(p.active_count(), 0);
    for v in 1..=MAX_BACKGROUND_VOICES as u32 {
        p.add(v);
    }
    assert_eq!(p.active_count(), MAX_BACKGROUND_VOICES);
    p.add(5);
    assert_eq!(p.active_count(), MAX_BACKGROUND_VOICES);
    assert_eq!(p.slot(0), Some(&2));
    assert_eq!(p.slot(3), Some(&5));
}

#[test]
fn pool_reuses_released_slot() {
    let mut p: VoicePool<u32> = VoicePool::new();
    p.add(1);
    p.add(2);
    p.add(3);
    p.release(1);
    assert_eq!(p.active_count(), 2);
    p.add(9);
    assert_eq!(p.slot(1), Some(&9));
    let taken = p.take(0);
    assert_eq!(taken, Some(1));
    assert_eq!(p.slot(0), None);
    p.put_back(0, 1);
    assert_eq!(p.slot(0), Some(&1));
    p.clear();
    assert_eq!(p.active_count(), 0);
}
