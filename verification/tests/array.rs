use concurrent_circbuf::array::CPair;
use concurrent_circbuf::sp::array::{Array, Slot};

#[test]
fn cpair_new_keeps_both_values() {
    let p = CPair::new(3u8, "three");
    assert_eq!(p.first, 3);
    assert_eq!(p.second, "three");
}

#[test]
fn fresh_array_holds_no_valid_index() {
    let mut a: Array<u32> = Array::new(4);
    assert_eq!(a.size(), 4);
    for i in 0..16 {
        assert_eq!(a.read(i), None);
    }
}

#[test]
fn position_is_index_modulo_size() {
    let a: Array<u32> = Array::new(8);
    assert_eq!(a.at(0), 0);
    assert_eq!(a.at(7), 7);
    assert_eq!(a.at(8), 0);
    assert_eq!(a.at(13), 5);
    assert_eq!(a.at(usize::MAX), 7);
}

#[test]
fn read_returns_what_write_wrote_once() {
    let mut a: Array<String> = Array::new(4);
    a.write(5, "five".to_string());
    assert_eq!(a.at(5), 1);
    assert_eq!(a.read(1), None);
    assert_eq!(a.read(9), None);
    assert_eq!(a.read(5), Some("five".to_string()));
    assert_eq!(a.read(5), None);
}

#[test]
fn write_replaces_the_slot_of_the_same_position() {
    let mut a: Array<u32> = Array::new(2);
    a.write(0, 10);
    a.write(1, 11);
    a.write(2, 12);
    assert_eq!(a.read(0), None);
    assert_eq!(a.read(1), Some(11));
    assert_eq!(a.read(2), Some(12));
}

#[test]
fn slot_holds_an_index_and_an_element() {
    let s = Slot { index: 7usize, data: Some('x') };
    assert_eq!(s.index, 7);
    assert_eq!(s.data, Some('x'));
}
