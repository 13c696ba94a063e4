use evm::storage::{Storage, TransientStorage};
use evm::word::Word;

fn create_storage() -> Storage {
    Storage::new()
}

#[test]
fn test_storage_init() {
    let mut evm_storage = create_storage();
    assert_eq!(evm_storage.cache.len(), 0);
    assert_eq!(evm_storage.load(Word::from_u64(3)), (false, Word::zero()))
}

// A store warms its key, so the load that follows already finds it warm.
#[test]
fn test_storage_store_and_load() {
    let mut evm_storage = create_storage();
    let key = Word::from_u64(1);
    let val = Word::from_u64(420);
    evm_storage.store(key, val);
    assert_eq!(evm_storage.load(key), (true, val));
}

// The first touch of a key is cold; every touch after that is warm.
#[test]
fn test_storage_load_cool_and_warm() {
    let mut evm_storage = create_storage();
    let key = Word::from_u64(1);
    let val = Word::from_u64(420);
    assert_eq!(evm_storage.load(key), (false, Word::zero())); // cold
    assert_eq!(evm_storage.cache.len(), 1); // key cached
    evm_storage.store(key, val);
    assert_eq!(evm_storage.load(key), (true, val)); // warm after first access
}

// Storing zero removes the entry: loading it back gives zero again, and
// peeking shows the same.
#[test]
fn test_storage_store_zero_deletes() {
    let mut s = create_storage();
    let key = Word::from_u64(7);
    s.store(key, Word::from_u64(5));
    assert_eq!(s.peek(&key).1, Word::from_u64(5));
    s.store(key, Word::zero());
    assert_eq!(s.peek(&key).1, Word::zero());
    assert_eq!(s.load(key), (true, Word::zero()));
}

#[test]
fn test_storage_peek_does_not_warm() {
    let s = create_storage();
    let key = Word::from_u64(9);
    assert_eq!(s.peek(&key), (false, Word::zero()));
    assert_eq!(s.cache.len(), 0);
}

#[test]
fn test_transient_storage_round_trip() {
    let mut t = TransientStorage::new();
    let key = Word::from_u64(2);
    assert_eq!(t.load(&key), Word::zero());
    t.store(key, Word::from_u64(11));
    assert_eq!(t.load(&key), Word::from_u64(11));
    t.store(key, Word::zero());
    assert_eq!(t.load(&key), Word::zero());
}
