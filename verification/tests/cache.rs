use cake_core::cake::cache::{Cache, CacheError};
use cake_core::cake::topology::BlockRange;

#[test]
fn new_cache_is_empty() {
    let c: Cache<u32> = Cache::new(BlockRange { first: 4, last: 7 });
    assert_eq!(c.position(), 0);
    assert_eq!(c.range(), BlockRange { first: 4, last: 7 });
    assert_eq!(c.get(4), None);
    assert_eq!(c.get(3), None);
}

#[test]
fn position_counts_committed_tokens() {
    let mut c: Cache<u32> = Cache::new(BlockRange { first: 4, last: 7 });
    for k in 0..25u32 {
        assert_eq!(c.position(), k as u64);
        assert_eq!(c.commit(vec![k, k + 1, k + 2, k + 3]), Ok(()));
    }
    assert_eq!(c.position(), 25);
    assert_eq!(c.get(4), Some(&24));
    assert_eq!(c.get(7), Some(&27));
    assert_eq!(c.get(8), None);
    assert_eq!(c.get(3), None);
}

#[test]
fn reset_returns_the_position_to_zero() {
    let mut c: Cache<u32> = Cache::new(BlockRange { first: 0, last: 1 });
    c.commit(vec![1, 2]).unwrap();
    c.commit(vec![3, 4]).unwrap();
    assert_eq!(c.position(), 2);
    c.reset();
    assert_eq!(c.position(), 0);
    assert_eq!(c.get(0), None);
    assert_eq!(c.range(), BlockRange { first: 0, last: 1 });
    c.commit(vec![5, 6]).unwrap();
    assert_eq!(c.position(), 1);
    assert_eq!(c.get(1), Some(&6));
}

#[test]
fn wrong_block_count_is_refused_and_changes_nothing() {
    let mut c: Cache<u32> = Cache::new(BlockRange { first: 0, last: 2 });
    assert_eq!(c.commit(vec![1, 2]), Err(CacheError::WrongBlockCount));
    assert_eq!(c.commit(Vec::new()), Err(CacheError::WrongBlockCount));
    assert_eq!(c.commit(vec![1, 2, 3, 4]), Err(CacheError::WrongBlockCount));
    assert_eq!(c.position(), 0);
    c.commit(vec![1, 2, 3]).unwrap();
    assert_eq!(c.commit(vec![9]), Err(CacheError::WrongBlockCount));
    assert_eq!(c.position(), 1);
    assert_eq!(c.get(2), Some(&3));
}

#[test]
fn cache_without_blocks_counts_tokens_too() {
    let mut c: Cache<u32> = Cache::new(BlockRange { first: 1, last: 0 });
    assert_eq!(c.commit(Vec::new()), Ok(()));
    assert_eq!(c.commit(vec![1]), Err(CacheError::WrongBlockCount));
    assert_eq!(c.position(), 1);
    assert_eq!(c.get(0), None);
    assert_eq!(c.get(1), None);
}
