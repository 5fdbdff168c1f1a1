use otter_fusion::rt::buffer::{__of_buffer_alloc, __of_buffer_get, __of_buffer_set};
use otter_fusion::rt::list::{
    __of_list_clear, __of_list_contains, __of_list_get, __of_list_index_of, __of_list_insert, __of_list_is_empty,
    __of_list_new, __of_list_pop, __of_list_push, __of_list_remove, __of_list_set, __of_list_size, __of_list_truncate,
};
use otter_fusion::rt::strings::{
    __of_bool_to_str, __of_char_to_str, __of_i64_to_str, __of_str_concat, __of_str_eq, __of_u64_to_str,
};
use otter_fusion::rt::vtable::{__of_vtable_clear, __of_vtable_lookup, __of_vtable_register, VTableRegistry};

#[test]
fn list_push_get_set_pop() {
    let mut l = __of_list_new();
    assert_eq!(__of_list_size(Some(&l)), 0);
    assert_eq!(__of_list_is_empty(Some(&l)), 1);
    __of_list_push(Some(&mut l), 10);
    __of_list_push(Some(&mut l), 20);
    __of_list_push(Some(&mut l), 30);
    assert_eq!(__of_list_size(Some(&l)), 3);
    assert_eq!(__of_list_is_empty(Some(&l)), 0);
    assert_eq!(__of_list_get(Some(&l), 1), 20);
    __of_list_set(Some(&mut l), 1, 25);
    assert_eq!(__of_list_get(Some(&l), 1), 25);
    assert_eq!(__of_list_get(Some(&l), 0), 10);
    assert_eq!(__of_list_pop(Some(&mut l)), 30);
    assert_eq!(__of_list_size(Some(&l)), 2);
}

#[test]
fn list_out_of_range_reads_null_and_writes_nothing() {
    let mut l = __of_list_new();
    __of_list_push(Some(&mut l), 7);
    assert_eq!(__of_list_get(Some(&l), -1), 0);
    assert_eq!(__of_list_get(Some(&l), 1), 0);
    __of_list_set(Some(&mut l), 5, 99);
    __of_list_set(Some(&mut l), -2, 99);
    assert_eq!(__of_list_size(Some(&l)), 1);
    assert_eq!(__of_list_get(Some(&l), 0), 7);
    assert_eq!(__of_list_remove(Some(&mut l), 3), 0);
    assert_eq!(__of_list_size(Some(&l)), 1);
    let mut empty = __of_list_new();
    assert_eq!(__of_list_pop(Some(&mut empty)), 0);
}

#[test]
fn missing_list_reads_as_empty() {
    assert_eq!(__of_list_size(None), 0);
    assert_eq!(__of_list_is_empty(None), 1);
    assert_eq!(__of_list_get(None, 0), 0);
    assert_eq!(__of_list_pop(None), 0);
    assert_eq!(__of_list_contains(None, 3), 0);
    assert_eq!(__of_list_index_of(None, 3), -1);
    __of_list_push(None, 1);
    __of_list_clear(None);
}

#[test]
fn list_insert_clamps_and_remove_shifts() {
    let mut l = __of_list_new();
    __of_list_insert(Some(&mut l), 5, 1);
    __of_list_insert(Some(&mut l), 0, 2);
    __of_list_insert(Some(&mut l), 1, 3);
    __of_list_insert(Some(&mut l), -1, 4);
    // 2, 3, 1
    assert_eq!(__of_list_size(Some(&l)), 3);
    assert_eq!(__of_list_get(Some(&l), 0), 2);
    assert_eq!(__of_list_get(Some(&l), 1), 3);
    assert_eq!(__of_list_get(Some(&l), 2), 1);
    assert_eq!(__of_list_remove(Some(&mut l), 0), 2);
    assert_eq!(__of_list_get(Some(&l), 0), 3);
    assert_eq!(__of_list_size(Some(&l)), 2);
}

#[test]
fn list_truncate_and_clear() {
    let mut l = __of_list_new();
    for v in 1..=5usize {
        __of_list_push(Some(&mut l), v);
    }
    __of_list_truncate(Some(&mut l), 10);
    assert_eq!(__of_list_size(Some(&l)), 5);
    __of_list_truncate(Some(&mut l), 2);
    assert_eq!(__of_list_size(Some(&l)), 2);
    assert_eq!(__of_list_get(Some(&l), 1), 2);
    __of_list_truncate(Some(&mut l), -3);
    assert_eq!(__of_list_size(Some(&l)), 0);
    __of_list_push(Some(&mut l), 9);
    __of_list_clear(Some(&mut l));
    assert_eq!(__of_list_is_empty(Some(&l)), 1);
}

#[test]
fn list_contains_and_index_of_agree() {
    let mut l = __of_list_new();
    __of_list_push(Some(&mut l), 4);
    __of_list_push(Some(&mut l), 8);
    __of_list_push(Some(&mut l), 4);
    assert_eq!(__of_list_contains(Some(&l), 8), 1);
    assert_eq!(__of_list_index_of(Some(&l), 8), 1);
    assert_eq!(__of_list_index_of(Some(&l), 4), 0);
    assert_eq!(__of_list_contains(Some(&l), 5), 0);
    assert_eq!(__of_list_index_of(Some(&l), 5), -1);
}

#[test]
fn vtable_lookup_finds_the_last_registration() {
    let mut reg = VTableRegistry::new();
    assert_eq!(__of_vtable_lookup(&reg, Some(1), 2, 0), 0);
    __of_vtable_register(&mut reg, 1, 2, 0, 0x1000);
    __of_vtable_register(&mut reg, 1, 2, 1, 0x2000);
    __of_vtable_register(&mut reg, 3, 2, 0, 0x3000);
    assert_eq!(__of_vtable_lookup(&reg, Some(1), 2, 0), 0x1000);
    assert_eq!(__of_vtable_lookup(&reg, Some(1), 2, 1), 0x2000);
    assert_eq!(__of_vtable_lookup(&reg, Some(3), 2, 0), 0x3000);
    __of_vtable_register(&mut reg, 1, 2, 0, 0x4000);
    assert_eq!(__of_vtable_lookup(&reg, Some(1), 2, 0), 0x4000);
    assert_eq!(__of_vtable_lookup(&reg, None, 2, 0), 0);
    assert_eq!(__of_vtable_lookup(&reg, Some(9), 2, 0), 0);
    __of_vtable_clear(&mut reg);
    assert_eq!(__of_vtable_lookup(&reg, Some(1), 2, 1), 0);
}

#[test]
fn buffer_reads_back_writes_and_clamps() {
    let mut b = __of_buffer_alloc(4).unwrap();
    assert_eq!(__of_buffer_get(Some(&b), 2), 0);
    __of_buffer_set(Some(&mut b), 2, 77);
    assert_eq!(__of_buffer_get(Some(&b), 2), 77);
    assert_eq!(__of_buffer_get(Some(&b), 1), 0);
    __of_buffer_set(Some(&mut b), 4, 5);
    assert_eq!(__of_buffer_get(Some(&b), 4), 0);
    assert_eq!(__of_buffer_get(None, 0), 0);
    let empty = __of_buffer_alloc(0).unwrap();
    assert_eq!(__of_buffer_get(Some(&empty), 0), 0);
    assert!(__of_buffer_alloc(u64::MAX).is_none());
}

#[test]
fn runtime_strings() {
    assert_eq!(__of_str_concat(Some("ab"), Some("cd")), "abcd");
    assert_eq!(__of_str_concat(None, Some("x")), "x");
    assert_eq!(__of_str_concat(None, None), "");
    assert_eq!(__of_str_eq(Some(b"hi".as_slice()), Some(b"hi".as_slice())), 1);
    assert_eq!(__of_str_eq(Some(b"hi".as_slice()), Some(b"ho".as_slice())), 0);
    assert_eq!(__of_str_eq(Some(b"hi".as_slice()), None), 0);
    assert_eq!(__of_str_eq(None, None), 1);
    assert_eq!(__of_i64_to_str(-42), "-42");
    assert_eq!(__of_i64_to_str(0), "0");
    assert_eq!(__of_i64_to_str(i64::MIN), "-9223372036854775808");
    assert_eq!(__of_u64_to_str(u64::MAX), "18446744073709551615");
    assert_eq!(__of_bool_to_str(1), "true");
    assert_eq!(__of_bool_to_str(0), "false");
    assert_eq!(__of_char_to_str(0x41), "A");
    assert_eq!(__of_char_to_str(0xD800), "");
    assert_eq!(__of_char_to_str(0x110000), "");
}
