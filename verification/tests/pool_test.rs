use java_asm::pool::ConstPool;

#[test]
fn equal_items_share_an_index() {
    let mut pool: ConstPool<u32> = ConstPool::new();
    assert_eq!(pool.put(7), 0);
    assert_eq!(pool.put(9), 1);
    assert_eq!(pool.put(7), 0);
    assert_eq!(pool.put(11), 2);
    assert_eq!(pool.put(9), 1);
}

#[test]
fn strings_are_pooled_by_value() {
    let mut pool: ConstPool<String> = ConstPool::new();
    assert_eq!(pool.put("java/lang/Object".to_string()), 0);
    assert_eq!(pool.put("main".to_string()), 1);
    assert_eq!(pool.put("java/lang/Object".to_string()), 0);
}

#[test]
fn str_items_get_indexes_in_first_insertion_order() {
    let mut pool: ConstPool<&str> = ConstPool::new();
    assert_eq!(pool.put("a"), 0);
    assert_eq!(pool.put("b"), 1);
    assert_eq!(pool.put("a"), 0);
    assert_eq!(pool.put("c"), 2);
}
