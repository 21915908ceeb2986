use xarray::array::XArray;
use xarray::error::Error;
use xarray::error::EINVAL;
use xarray::flags;

use std::cell::Cell;
use std::rc::Rc;

/// A value that records, in a shared counter, how many times it was dropped.
struct Probe {
    hits: Rc<Cell<usize>>,
}

impl Drop for Probe {
    fn drop(&mut self) {
        self.hits.set(self.hits.get() + 1);
    }
}

fn probe(hits: &Rc<Cell<usize>>) -> Probe {
    Probe { hits: hits.clone() }
}

#[test]
fn example_scenario() {
    let mut xa = XArray::<String>::new(flags::ALLOC).unwrap();
    assert_eq!(xa.replace(5, String::from("ten")).unwrap(), None);
    {
        let g = xa.get(5).unwrap();
        assert_eq!(*g.borrow(), String::from("ten"));
    }
    assert_eq!(xa.remove(5), Some(String::from("ten")));
    assert!(xa.get(5).is_none());
    let res = xa.reserve().unwrap();
    let j = res.index();
    assert!(xa.get(j).is_none());
    let stored = res.store(&mut xa, String::from("x")).unwrap();
    assert_eq!(stored, j);
    assert_eq!(*xa.get(j).unwrap().borrow(), String::from("x"));
}

#[test]
fn round_trip_set_get() {
    let mut xa = XArray::<u64>::new(0).unwrap();
    for i in [0usize, 1, 7, 100] {
        xa.set(i, (i as u64) * 2 + 1).unwrap();
    }
    for i in [0usize, 1, 7, 100] {
        let g = xa.get(i).unwrap();
        assert_eq!(*g.borrow(), (i as u64) * 2 + 1);
    }
    assert!(xa.get(3).is_none());
    assert!(xa.get(101).is_none());
}

#[test]
fn overwrite_returns_previous() {
    let mut xa = XArray::<String>::new(0).unwrap();
    xa.set(9, String::from("first")).unwrap();
    let prev = xa.replace(9, String::from("second")).unwrap();
    assert_eq!(prev, Some(String::from("first")));
    assert_eq!(*xa.get(9).unwrap().borrow(), String::from("second"));
}

#[test]
fn remove_returns_value_and_empties() {
    let mut xa = XArray::<u32>::new(0).unwrap();
    xa.set(4, 44).unwrap();
    assert_eq!(xa.remove(4), Some(44));
    assert!(xa.get(4).is_none());
    assert_eq!(xa.remove(4), None);
}

#[test]
fn allocation_unique_while_reserved() {
    let mut xa = XArray::<u8>::new(flags::ALLOC).unwrap();
    let first = xa.reserve_limits(0, 10).unwrap();
    let second = xa.allocate(None).unwrap();
    assert_ne!(first.index(), second);
    let third = xa.reserve().unwrap();
    assert_ne!(first.index(), third.index());
    assert_ne!(second, third.index());
    first.discard(&mut xa);
    third.discard(&mut xa);
}

#[test]
fn allocate_takes_lowest_free_index() {
    let mut xa = XArray::<&'static str>::new(flags::ALLOC).unwrap();
    xa.set(0, "a").unwrap();
    xa.set(2, "c").unwrap();
    assert_eq!(xa.allocate(Some("b")).unwrap(), 1);
    assert_eq!(xa.allocate(Some("d")).unwrap(), 3);
    assert_eq!(*xa.get(1).unwrap().borrow(), "b");
    assert_eq!(*xa.get(3).unwrap().borrow(), "d");
}

#[test]
fn reservation_discard_frees_index() {
    let mut xa = XArray::<u64>::new(flags::ALLOC).unwrap();
    let res = xa.reserve().unwrap();
    let i = res.index();
    assert!(xa.get(i).is_none());
    res.discard(&mut xa);
    assert!(xa.get(i).is_none());
    assert_eq!(xa.allocate(None).unwrap(), i);
}

#[test]
fn reservation_store_fills_index() {
    let mut xa = XArray::<String>::new(flags::ALLOC).unwrap();
    let res = xa.reserve().unwrap();
    let i = res.index();
    let got = res.store(&mut xa, String::from("v")).unwrap();
    assert_eq!(got, i);
    assert_eq!(*xa.get(i).unwrap().borrow(), String::from("v"));
}

#[test]
fn teardown_drops_each_value_once() {
    let hits = Rc::new(Cell::new(0usize));
    {
        let mut xa = XArray::<Probe>::new(flags::ALLOC).unwrap();
        for i in 0..5usize {
            xa.set(i * 3, probe(&hits)).unwrap();
        }
        let res = xa.reserve().unwrap();
        res.store(&mut xa, probe(&hits)).unwrap();
        assert_eq!(hits.get(), 0);
    }
    assert_eq!(hits.get(), 6);
}

#[test]
fn allocation_failure_drops_value_once() {
    let hits = Rc::new(Cell::new(0usize));
    let mut xa = XArray::<Probe>::new(flags::ALLOC).unwrap();
    xa.set(0, probe(&hits)).unwrap();
    let r = xa.alloc_limits(Some(probe(&hits)), 0, 0);
    assert_eq!(r.unwrap_err(), Error::AllocationExhausted);
    assert_eq!(hits.get(), 1);
    drop(xa);
    assert_eq!(hits.get(), 2);
}

#[test]
fn set_drops_previous_value_once() {
    let hits = Rc::new(Cell::new(0usize));
    let mut xa = XArray::<Probe>::new(0).unwrap();
    xa.set(1, probe(&hits)).unwrap();
    xa.set(1, probe(&hits)).unwrap();
    assert_eq!(hits.get(), 1);
    drop(xa);
    assert_eq!(hits.get(), 2);
}

#[test]
fn conversion_error_out_of_domain_index() {
    let mut xa = XArray::<u64>::new(0).unwrap();
    xa.set(5, 55).unwrap();
    let big: usize = (u32::MAX as usize) + 1;
    assert_eq!(xa.set(big, 1).unwrap_err(), Error::ConversionError);
    assert_eq!(xa.replace(big, 2).unwrap_err(), Error::ConversionError);
    assert!(xa.get(big).is_none());
    assert_eq!(xa.remove(big), None);
    assert_eq!(*xa.get(5).unwrap().borrow(), 55);
}

#[test]
fn conversion_failure_drops_value_once() {
    let hits = Rc::new(Cell::new(0usize));
    let mut xa = XArray::<Probe>::new(0).unwrap();
    let big: usize = (u32::MAX as usize) + 1;
    assert_eq!(xa.set(big, probe(&hits)).unwrap_err(), Error::ConversionError);
    assert_eq!(hits.get(), 1);
    drop(xa);
    assert_eq!(hits.get(), 1);
}

#[test]
fn allocate_without_tracking_is_rejected() {
    let mut xa = XArray::<u8>::new(0).unwrap();
    assert_eq!(xa.allocate(Some(7)).unwrap_err(), Error::EngineError(EINVAL));
    assert_eq!(xa.reserve().err().unwrap(), Error::EngineError(EINVAL));
    assert!(xa.get(0).is_none());
}

#[test]
fn empty_bounds_are_exhausted() {
    let mut xa = XArray::<u8>::new(flags::ALLOC).unwrap();
    assert_eq!(
        xa.alloc_limits(None, 5, 3).unwrap_err(),
        Error::AllocationExhausted
    );
}

#[test]
fn alloc1_starts_at_one() {
    let mut xa = XArray::<u8>::new(flags::ALLOC1).unwrap();
    assert!(xa.get(0).is_none());
    assert_eq!(xa.allocate(Some(1)).unwrap(), 1);
    assert_eq!(xa.remove(0), None);
    assert_eq!(xa.allocate(Some(2)).unwrap(), 0);
}

#[test]
fn replace_on_reserved_returns_nothing() {
    let mut xa = XArray::<u8>::new(flags::ALLOC).unwrap();
    let res = xa.reserve().unwrap();
    let i = res.index();
    assert_eq!(xa.replace(i, 9).unwrap(), None);
    let stored = res.store(&mut xa, 10).unwrap();
    assert_eq!(stored, i);
    assert_eq!(*xa.get(i).unwrap().borrow(), 10);
}

#[test]
fn discard_clears_out_of_band_fill() {
    let hits = Rc::new(Cell::new(0usize));
    let mut xa = XArray::<Probe>::new(flags::ALLOC).unwrap();
    let res = xa.reserve().unwrap();
    let i = res.index();
    xa.set(i, probe(&hits)).unwrap();
    res.discard(&mut xa);
    assert_eq!(hits.get(), 1);
    assert!(xa.get(i).is_none());
}

#[test]
fn into_entries_returns_each_value_once_in_order() {
    let mut xa = XArray::<String>::new(flags::ALLOC).unwrap();
    xa.set(7, String::from("seven")).unwrap();
    xa.set(2, String::from("two")).unwrap();
    let res = xa.reserve().unwrap();
    assert_eq!(res.index(), 0);
    xa.set(11, String::from("eleven")).unwrap();
    let entries = xa.into_entries();
    assert_eq!(
        entries,
        vec![
            (2, String::from("two")),
            (7, String::from("seven")),
            (11, String::from("eleven")),
        ]
    );
}

#[test]
fn guard_view_matches_stored_value() {
    let mut xa = XArray::<Vec<u8>>::new(0).unwrap();
    xa.set(2, vec![1, 2, 3]).unwrap();
    let g = xa.get(2).unwrap();
    let view = g.borrow();
    assert_eq!(view.len(), 3);
    assert_eq!(view[0], 1);
}
