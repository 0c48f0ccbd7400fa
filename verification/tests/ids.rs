use blaze64::id::{Id, IdStore};

#[test]
fn id_packs_number_low_and_version_high() {
    let mut id = Id::new(5);
    id.increment_version();
    id.increment_version();
    assert_eq!(id.number(), 5);
    assert_eq!(id.version(), 2);
    assert_eq!(id.as_i32(), 5 | (2 << 16));
}

#[test]
fn id_i32_roundtrip() {
    let mut id = Id::new(0xBEEF);
    for _ in 0..7 {
        id.increment_version();
    }
    let back = Id::from_i32(id.as_i32());
    assert_eq!(back, id);

    let x: i32 = -123456;
    assert_eq!(Id::from_i32(x).as_i32(), x);
}

#[test]
fn id_version_wraps_around() {
    let mut id = Id::from_i32(3 | (0xFFFF << 16));
    assert_eq!(id.version(), u16::MAX);
    id.increment_version();
    assert_eq!(id.version(), 0);
    assert_eq!(id.number(), 3);
}

#[test]
fn default_id_is_zero() {
    let id = Id::default();
    assert_eq!(id.number(), 0);
    assert_eq!(id.version(), 0);
    assert_eq!(id.as_i32(), 0);
}

#[test]
fn store_issues_numbers_from_one() {
    let mut store: IdStore<&str> = IdStore::new();
    let a = store.new_id("a");
    let b = store.new_id("b");
    let c = store.new_id("c");
    assert_eq!((a.number(), a.version()), (1, 0));
    assert_eq!((b.number(), b.version()), (2, 0));
    assert_eq!((c.number(), c.version()), (3, 0));
    assert_eq!(store.data(a), Some(&"a"));
    assert_eq!(store.data(b), Some(&"b"));
    assert_eq!(store.data(c), Some(&"c"));
    assert!(store.id_is_valid(a) && store.id_is_valid(b) && store.id_is_valid(c));
}

#[test]
fn store_zero_and_unissued_ids_are_invalid() {
    let mut store: IdStore<u32> = IdStore::new();
    assert!(!store.id_is_valid(Id::default()));
    assert_eq!(store.data(Id::default()), None);
    let a = store.new_id(10);
    assert!(!store.id_is_valid(Id::new(2)));
    assert_eq!(store.data(Id::new(2)), None);
    assert!(!store.id_is_valid(Id::default()));
    assert!(store.id_is_valid(a));
}

#[test]
fn store_delete_invalidates() {
    let mut store: IdStore<u32> = IdStore::new();
    let a = store.new_id(10);
    let b = store.new_id(20);
    assert!(store.delete_id(a));
    assert!(!store.id_is_valid(a));
    assert_eq!(store.data(a), None);
    assert!(store.id_is_valid(b));
    assert_eq!(store.data(b), Some(&20));
    assert!(!store.delete_id(a));
}

#[test]
fn store_recycles_with_new_version() {
    let mut store: IdStore<u32> = IdStore::new();
    let a = store.new_id(10);
    let _b = store.new_id(20);
    assert!(store.delete_id(a));
    let c = store.new_id(30);
    assert_eq!(c.number(), a.number());
    assert_eq!(c.version(), a.version() + 1);
    assert!(!store.id_is_valid(a));
    assert!(store.id_is_valid(c));
    assert_eq!(store.data(c), Some(&30));
    let d = store.new_id(40);
    assert_eq!((d.number(), d.version()), (3, 0));
}

#[test]
fn store_data_needs_the_live_version() {
    let mut store: IdStore<u32> = IdStore::new();
    let a = store.new_id(10);
    let mut stale = a;
    stale.increment_version();
    assert!(!store.id_is_valid(stale));
    assert_eq!(store.data(stale), None);
    assert_eq!(store.data(a), Some(&10));
}

#[test]
fn stale_id_reaches_no_data_after_reuse() {
    let mut store: IdStore<u8> = IdStore::new();
    let a = store.new_id(10);
    assert!(store.delete_id(a));
    let mut c = store.new_id(30);
    assert_eq!(c.number(), a.number());
    assert!(store.data_mut(a).is_none());
    assert_eq!(store.data_mut(c).map(|v| *v), Some(30));
    assert_eq!(store.data(a), None);
    c = Id::new(c.number());
    assert_eq!(store.data(c), None);
}

#[test]
fn store_data_mut_changes_data() {
    let mut store: IdStore<u32> = IdStore::new();
    let a = store.new_id(10);
    if let Some(v) = store.data_mut(a) {
        *v = 11;
    }
    assert_eq!(store.data(a), Some(&11));
    assert!(store.data_mut(Id::new(9)).is_none());
}

#[test]
fn store_delete_middle_keeps_others() {
    let mut store: IdStore<u32> = IdStore::new();
    let a = store.new_id(1);
    let b = store.new_id(2);
    let c = store.new_id(3);
    assert!(store.delete_id(b));
    assert!(store.id_is_valid(a));
    assert!(store.id_is_valid(c));
    assert!(store.delete_id(a));
    assert!(store.id_is_valid(c));
    assert_eq!(store.data(c), Some(&3));
    let d = store.new_id(4);
    let e = store.new_id(5);
    assert!(store.id_is_valid(d) && store.id_is_valid(e) && store.id_is_valid(c));
    assert_eq!(store.data(d), Some(&4));
    assert_eq!(store.data(e), Some(&5));
    assert_ne!(d.number(), e.number());
    assert_eq!(d.version(), 1);
    assert_eq!(e.version(), 1);
}

#[test]
fn store_counts_live_ids() {
    let mut store: IdStore<u8> = IdStore::new();
    assert_eq!(store.live_count(), 0);
    let a = store.new_id(1);
    store.new_id(2);
    assert_eq!(store.live_count(), 2);
    store.delete_id(a);
    assert_eq!(store.live_count(), 1);
}

#[test]
fn store_recycles_the_last_deleted_first() {
    let mut store: IdStore<u8> = IdStore::new();
    let a = store.new_id(1);
    let b = store.new_id(2);
    let _c = store.new_id(3);
    assert!(store.delete_id(a));
    assert!(store.delete_id(b));
    let d = store.new_id(4);
    assert_eq!((d.number(), d.version()), (b.number(), 1));
    let e = store.new_id(5);
    assert_eq!((e.number(), e.version()), (a.number(), 1));
    let f = store.new_id(6);
    assert_eq!((f.number(), f.version()), (4, 0));
}
