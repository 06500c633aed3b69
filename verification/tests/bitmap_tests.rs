use whyos::bitmap::Bitmap;
use whyos::multi_bitmap::MultiBitmap;
use whyos::task_map::{TaskList, TaskMap};
use whyos::types::TaskId;

#[test]
fn bitmap32_set_clear_and_test() {
    let mut b = Bitmap::<u32>::new();
    assert!(b.is_empty());
    b.set(3);
    b.set(31);
    assert_eq!(b.raw(), (1u32 << 3) | (1u32 << 31));
    assert!(b.is_set(3));
    assert!(b.is_set(31));
    assert!(!b.is_set(4));
    assert_eq!(b.ones(), 2);
    b.clear(3);
    assert_eq!(b.raw(), 1u32 << 31);
    assert_eq!(b.ones(), 1);
    b.clear(31);
    assert!(b.is_empty());
}

#[test]
fn bitmap32_first_unset() {
    assert_eq!(Bitmap::<u32>::new().first_unset(), Some(0));
    assert_eq!(Bitmap::<u32>::from(0b0111).first_unset(), Some(3));
    assert_eq!(Bitmap::<u32>::from(u32::MAX).first_unset(), None);
    assert_eq!(Bitmap::<u32>::from(0x7FFF_FFFF).first_unset(), Some(31));
}

#[test]
fn bitmap32_iter_lists_set_bits_in_order() {
    assert_eq!(Bitmap::<u32>::from(0b1010_0101).iter(), vec![0, 2, 5, 7]);
    assert_eq!(Bitmap::<u32>::new().iter(), Vec::<usize>::new());
    assert_eq!(Bitmap::<u32>::from(1u32 << 31).iter(), vec![31]);
}

#[test]
fn bitmap32_iter_from_wraps_around() {
    let b = Bitmap::<u32>::from(0b1010_0101);
    assert_eq!(b.iter_from(0), vec![0, 2, 5, 7]);
    assert_eq!(b.iter_from(3), vec![5, 7, 0, 2]);
    assert_eq!(b.iter_from(7), vec![7, 0, 2, 5]);
    assert_eq!(b.iter_from(8), vec![0, 2, 5, 7]);
    assert_eq!(b.iter_from(31), vec![0, 2, 5, 7]);
}

#[test]
fn bitmap64_set_and_clear_ranges() {
    let mut b = Bitmap::<u64>::new();
    b.set_range(4, 8);
    assert_eq!(b.raw(), 0xFF0);
    b.clear_range(6, 2);
    assert_eq!(b.raw(), 0xF30);
    b.set_range(0, 64);
    assert!(b.is_full());
    assert_eq!(b.raw(), u64::MAX);
    b.clear_range(0, 64);
    assert!(b.is_empty());
    b.set_range(60, 4);
    assert_eq!(b.raw(), 0xF000_0000_0000_0000);
}

#[test]
fn bitmap64_zero_counts() {
    let b = Bitmap::<u64>::from(0b1000);
    assert_eq!(b.trailing_zeros(), 3);
    assert_eq!(b.leading_zeros(), 60);
    let e = Bitmap::<u64>::new();
    assert_eq!(e.trailing_zeros(), 64);
    assert_eq!(e.leading_zeros(), 64);
    let mut s = Bitmap::<u64>::new();
    s.set(63);
    assert!(s.is_set(63));
    assert_eq!(s.leading_zeros(), 0);
    s.clear(63);
    assert!(!s.is_set(63));
}

#[test]
fn bitmap64_find_first_fit() {
    // bits 0, 3, 8, 9, 10, 11 are taken
    let b = Bitmap::<u64>::from(0b1111_0000_1001);
    assert_eq!(b.find_first_fit(1), Some(1));
    assert_eq!(b.find_first_fit(2), Some(1));
    assert_eq!(b.find_first_fit(3), Some(4));
    assert_eq!(b.find_first_fit(4), Some(4));
    assert_eq!(b.find_first_fit(5), Some(12));
    assert_eq!(b.find_first_fit(52), Some(12));
    assert_eq!(b.find_first_fit(53), None);
    assert_eq!(b.find_first_fit(0), None);
    assert_eq!(b.find_first_fit(65), None);
    assert_eq!(Bitmap::<u64>::new().find_first_fit(64), Some(0));
    assert_eq!(Bitmap::<u64>::from(u64::MAX).find_first_fit(1), None);
}

#[test]
fn multi_bitmap_single_bits() {
    let mut m = MultiBitmap::<4>::new();
    assert_eq!(m.total_bits(), 256);
    m.set(70);
    assert!(m.is_set(70));
    assert!(!m.is_set(69));
    assert!(!m.is_set(6));
    m.clear(70);
    assert!(!m.is_set(70));
}

#[test]
fn multi_bitmap_ranges_cross_words() {
    let mut m = MultiBitmap::<4>::new();
    m.set_range(60, 10);
    for i in 0..256 {
        assert_eq!(m.is_set(i), (60..70).contains(&i), "bit {}", i);
    }
    m.clear_range(62, 4);
    for i in 0..256 {
        let expect = (60..62).contains(&i) || (66..70).contains(&i);
        assert_eq!(m.is_set(i), expect, "bit {}", i);
    }
    m.set_range(0, 256);
    assert_eq!(m.find_first_fit(1), None);
    m.clear_range(0, 256);
    assert_eq!(m.find_first_fit(256), Some(0));
}

#[test]
fn multi_bitmap_first_fit_is_leftmost() {
    let mut m = MultiBitmap::<4>::new();
    m.set_range(0, 3);
    assert_eq!(m.find_first_fit(5), Some(3));
    // a run that spans the boundary between the first two words
    let mut m = MultiBitmap::<4>::new();
    m.set_range(0, 62);
    m.set_range(70, 10);
    assert_eq!(m.find_first_fit(4), Some(62));
    assert_eq!(m.find_first_fit(8), Some(62));
    assert_eq!(m.find_first_fit(9), Some(80));
    // a run longer than a word
    let mut m = MultiBitmap::<4>::new();
    m.set(10);
    m.set(100);
    assert_eq!(m.find_first_fit(80), Some(11));
    assert_eq!(m.find_first_fit(90), Some(101));
    assert_eq!(m.find_first_fit(155), Some(101));
    assert_eq!(m.find_first_fit(156), None);
    assert_eq!(m.find_first_fit(0), None);
    assert_eq!(m.find_first_fit(257), None);
}

#[test]
fn multi_bitmap_fit_in_last_word_tail() {
    let mut m = MultiBitmap::<4>::new();
    m.set_range(0, 250);
    assert_eq!(m.find_first_fit(6), Some(250));
    assert_eq!(m.find_first_fit(7), None);
}

#[test]
fn task_map_membership() {
    let mut map = TaskMap::new();
    let t3 = TaskId::new(3).unwrap();
    let t31 = TaskId::new(31).unwrap();
    map.add(t3);
    map.add(t31);
    assert!(map.is_set(t3));
    assert!(!map.is_set(TaskId::new(4).unwrap()));
    assert_eq!(map.ones(), 2);
    assert_eq!(map.raw(), (1u32 << 3) | (1u32 << 31));
    let ids: Vec<usize> = map.iter().iter().map(|t| t.id()).collect();
    assert_eq!(ids, vec![3, 31]);
    let from4: Vec<usize> = map.iter_from(4).iter().map(|t| t.id()).collect();
    assert_eq!(from4, vec![31, 3]);
    map.remove(t3);
    assert_eq!(map.raw(), 1u32 << 31);
    assert_eq!(map.first_free().map(|t| t.id()), Some(0));
    assert_eq!(TaskMap::from(u32::MAX).first_free().map(|t| t.id()), None);
    assert_eq!(TaskMap::from(0b111).first_free().map(|t| t.id()), Some(3));
}

#[test]
fn task_list_membership() {
    let mut list = TaskList::new();
    assert!(list.is_empty());
    list.add(5);
    list.add(1);
    assert!(!list.is_empty());
    assert_eq!(list.iter(), vec![1, 5]);
    list.remove(5);
    assert_eq!(list.iter(), vec![1]);
    assert_eq!(TaskList::from(0b1001).iter(), vec![0, 3]);
}

#[test]
fn task_id_range() {
    assert_eq!(TaskId::new(0).map(|t| t.id()), Some(0));
    assert_eq!(TaskId::new(31).map(|t| t.id()), Some(31));
    assert!(TaskId::new(32).is_none());
}

#[test]
fn bitmap64_ranges_past_the_top_are_cut() {
    let mut b = Bitmap::<u64>::new();
    b.set_range(60, 10);
    assert_eq!(b.raw(), 0xF000_0000_0000_0000);
    b.set_range(5, 64);
    assert_eq!(b.raw(), u64::MAX << 5);
    b.clear_range(8, 64);
    assert_eq!(b.raw(), 0xE0);
}
