use std::cell::Cell;

use freehand::pool::{Pool, PoolRequest};

#[derive(Clone, Copy, PartialEq, Eq, Debug)]
struct Item {
    value: i32,
    extra: i32,
}

struct ItemRequest {
    value: i32,
    extra: i32,
    fail: bool,
}

impl PoolRequest for ItemRequest {
    type Item = Item;
    type Error = i32;

    fn distance_spec(&self, item: Item) -> Option<u64> {
        Some((self.value - item.value).unsigned_abs() as u64)
    }

    fn prepare_spec(&self, mut item: Item) -> Item {
        item.extra = self.extra;
        item
    }

    fn distance(&self, item: &Item) -> Option<u64> {
        Some((self.value - item.value).unsigned_abs() as u64)
    }

    fn prepare(&self, item: &mut Item) {
        item.extra = self.extra;
    }

    fn create(&self) -> Result<Item, i32> {
        if !self.fail {
            Ok(Item {
                value: self.value,
                extra: self.extra,
            })
        } else {
            Err(-1)
        }
    }
}

#[test]
fn returns_created_object() {
    let mut pool = Pool::new(4);
    assert_eq!(
        pool.take(&ItemRequest {
            value: 1,
            extra: 2,
            fail: false,
        })
        .map(|r| r.into_value()),
        Ok(Item { value: 1, extra: 2 })
    )
}

#[test]
fn returns_cached_object() {
    let mut pool = Pool::new(4);
    let request = ItemRequest {
        value: 1,
        extra: 2,
        fail: false,
    };
    let e1 = pool.take(&request).unwrap();
    let v1 = *e1.value();
    pool.release(e1.into_value());
    let e2 = pool.take(&request).unwrap();
    let v2 = *e2.value();
    pool.release(e2.into_value());
    assert_eq!(v1, v2);
    assert_eq!(pool.size(), 1);
}

#[test]
fn updates_cached_object() {
    let mut pool = Pool::new(4);
    let request1 = ItemRequest {
        value: 1,
        extra: 2,
        fail: false,
    };
    let e1 = pool.take(&request1).unwrap();
    let v1 = *e1.value();
    pool.release(e1.into_value());

    let request2 = ItemRequest {
        value: 1,
        extra: 3,
        fail: false,
    };
    let e2 = pool.take(&request2).unwrap();
    let v2 = *e2.value();
    pool.release(e2.into_value());

    assert_eq!(v1, Item { value: 1, extra: 2 });
    assert_eq!(v2, Item { value: 1, extra: 3 });
    assert_eq!(pool.size(), 1);
}

#[test]
fn creates_second_object_if_the_fist_was_taken() {
    let mut pool = Pool::new(4);
    let request = ItemRequest {
        value: 1,
        extra: 2,
        fail: false,
    };
    let e1 = pool.take(&request).unwrap();
    let e2 = pool.take(&request).unwrap();
    assert_eq!(*e1.value(), *e2.value());
    pool.release(e1.into_value());
    pool.release(e2.into_value());
    assert_eq!(pool.size(), 2);
}

#[test]
fn stores_no_more_than_max_size_objects() {
    let mut pool = Pool::new(10);
    let request = ItemRequest {
        value: 1,
        extra: 2,
        fail: false,
    };
    let mut items = Vec::new();
    for _i in 0..33 {
        items.push(pool.take(&request));
    }
    assert_eq!(items.len(), 33);
    for item in items {
        pool.release(item.unwrap().into_value());
    }
    assert!(pool.size() >= 5);
    assert!(pool.size() <= 10);
}

#[test]
fn return_error_on_creation_fail() {
    let mut pool = Pool::new(10);
    let request = ItemRequest {
        value: 1,
        extra: 2,
        fail: true,
    };

    assert_eq!(pool.take(&request).map(|r| r.into_value()), Err(-1));
}

struct CountingRequest {
    value: i32,
    created: Cell<u32>,
}

impl PoolRequest for CountingRequest {
    type Item = Item;
    type Error = i32;

    fn distance_spec(&self, item: Item) -> Option<u64> {
        if item.value == self.value {
            Some(0)
        } else {
            None
        }
    }

    fn prepare_spec(&self, item: Item) -> Item {
        item
    }

    fn distance(&self, item: &Item) -> Option<u64> {
        if item.value == self.value {
            Some(0)
        } else {
            None
        }
    }

    fn prepare(&self, _item: &mut Item) {}

    fn create(&self) -> Result<Item, i32> {
        self.created.set(self.created.get() + 1);
        Ok(Item {
            value: self.value,
            extra: 0,
        })
    }
}

#[test]
fn perfect_match_skips_creation() {
    let mut pool = Pool::new(4);
    let request = CountingRequest {
        value: 7,
        created: Cell::new(0),
    };
    let e1 = pool.take(&request).unwrap();
    pool.release(e1.into_value());
    assert_eq!(request.created.get(), 1);
    let e2 = pool.take(&request).unwrap();
    assert_eq!(*e2.value(), Item { value: 7, extra: 0 });
    // The idle instance matched at distance zero, so nothing was created.
    assert_eq!(request.created.get(), 1);
    assert_eq!(pool.size(), 0);
}

#[test]
fn evicts_oldest_idle_instance_first() {
    let mut pool = Pool::new(2);
    pool.release(Item { value: 1, extra: 0 });
    pool.release(Item { value: 2, extra: 0 });
    // The pool is full: releasing a third instance evicts the oldest.
    pool.release(Item { value: 3, extra: 0 });
    assert_eq!(pool.size(), 2);
    let request = CountingRequest {
        value: 1,
        created: Cell::new(0),
    };
    // The evicted instance is gone: asking for it creates a new one.
    let e = pool.take(&request).unwrap();
    assert_eq!(request.created.get(), 1);
    pool.release(e.into_value());
}
