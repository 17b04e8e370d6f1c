use bevy_rpg::error::DataError;
use bevy_rpg::turn_order::TurnOrderList;

fn unsorted_vec() -> Vec<(Option<i32>, i32)> {
    // entity, speed
    vec![(None, 3), (None, 2), (None, 41), (None, 2), (None, 5)]
}

#[test]
fn t_new_sorted() {
    let list = unsorted_vec();
    let turnord = TurnOrderList::new_sorted(list);
    assert_eq!(
        turnord.units(),
        &vec![(None, 41), (None, 5), (None, 3), (None, 2), (None, 2)]
    );
}

#[test]
fn next_pass_pass() {
    let list = unsorted_vec();
    let mut turnord = TurnOrderList::new_sorted(list);
    assert_eq!(turnord.next().unwrap().1, 5);
    assert_eq!(turnord.next().unwrap().1, 3);
    assert_eq!(turnord.next().unwrap().1, 2);
    assert_eq!(turnord.next().unwrap().1, 2);
    assert_eq!(turnord.next().unwrap().1, 41);
}

#[test]
fn next_after_delete_pass() {
    let list = unsorted_vec();
    let mut turnord = TurnOrderList::new_sorted(list);
    turnord.remove(Some(3));
    assert_eq!(turnord.next().unwrap().1, 5);
    assert_eq!(turnord.next().unwrap().1, 3);
    assert_eq!(turnord.next().unwrap().1, 2);
    assert_eq!(turnord.next().unwrap().1, 41);
}

#[test]
fn next_fail() {
    let mut turnord: TurnOrderList<u64> = TurnOrderList::new();
    assert!(turnord.next().is_err());
}

#[test]
fn sort_keeps_order_of_equal_speeds() {
    let list = vec![(1u64, 2), (2, 7), (3, 2), (4, 7), (5, -1), (6, 2)];
    let turnord = TurnOrderList::new_sorted(list);
    assert_eq!(
        turnord.units(),
        &vec![(2, 7), (4, 7), (1, 2), (3, 2), (6, 2), (5, -1)]
    );
    assert_eq!(turnord.index(), 0);
}

#[test]
fn empty_list_errors() {
    let turnord: TurnOrderList<u64> = TurnOrderList::new();
    assert!(turnord.is_empty());
    assert_eq!(turnord.get_current(), Err(DataError::EmptyList));
    assert_eq!(turnord.get(0), Err(DataError::EmptyList));
    assert_eq!(
        DataError::EmptyList.message(),
        "empty List, check if the generate function was ran before".to_string()
    );
}

#[test]
fn peek_names_the_next_unit() {
    let mut turnord = TurnOrderList::new_sorted(vec![(10u64, 1), (20, 3), (30, 2)]);
    assert_eq!(*turnord.get_current().unwrap(), 20);
    assert_eq!(*turnord.peek(), 30);
    assert_eq!(turnord.next().unwrap().0, 30);
    assert_eq!(*turnord.peek(), 10);
    assert_eq!(turnord.next().unwrap().0, 10);
    assert_eq!(*turnord.peek(), 20);
    assert_eq!(*turnord.get(1).unwrap(), 30);
}

#[test]
fn full_round_returns_to_start() {
    let mut turnord = TurnOrderList::new_sorted(vec![(1u64, 1), (2, 2), (3, 3), (4, 4)]);
    turnord.next().unwrap();
    let start = *turnord.get_current().unwrap();
    let mut seen = Vec::new();
    for _ in 0..4 {
        seen.push(turnord.next().unwrap().0);
    }
    assert_eq!(*turnord.get_current().unwrap(), start);
    seen.sort();
    assert_eq!(seen, vec![1, 2, 3, 4]);
}

#[test]
fn remove_shifts_cursor_back() {
    let mut turnord = TurnOrderList::new_sorted(vec![(1u64, 5), (2, 4), (3, 3), (4, 2)]);
    turnord.next().unwrap();
    turnord.next().unwrap();
    assert_eq!(turnord.index(), 2);
    turnord.remove(None);
    assert_eq!(turnord.index(), 1);
    assert_eq!(turnord.units(), &vec![(1, 5), (2, 4), (4, 2)]);
    assert_eq!(turnord.next().unwrap().0, 4);
    turnord.remove(Some(0));
    assert_eq!(turnord.index(), 1);
    assert_eq!(*turnord.get_current().unwrap(), 4);
    turnord.remove(Some(1));
    assert_eq!(turnord.index(), 0);
    assert_eq!(*turnord.get_current().unwrap(), 2);
    turnord.remove(None);
    assert!(turnord.is_empty());
    assert_eq!(turnord.index(), 0);
}

#[test]
fn take_returns_unit() {
    let mut turnord = TurnOrderList::new_sorted(vec![(1u64, 9), (2, 7), (3, 5), (4, 3)]);
    assert_eq!(turnord.take(Some(1)), (2, 7));
    assert_eq!(turnord.units(), &vec![(1, 9), (3, 5), (4, 3)]);
    assert_eq!(turnord.index(), 0);
    turnord.next().unwrap();
    turnord.next().unwrap();
    assert_eq!(turnord.take(None), (4, 3));
    assert_eq!(turnord.index(), 1);
    assert_eq!(turnord.units(), &vec![(1, 9), (3, 5)]);
}

#[test]
fn take_and_remove_agree() {
    let units = vec![(1u64, 9), (2, 7), (3, 7), (4, 3), (5, 1)];
    for i in 0..units.len() {
        let mut taken = TurnOrderList::new_sorted(units.clone());
        let mut removed = TurnOrderList::new_sorted(units.clone());
        let unit = taken.take(Some(i));
        removed.remove(Some(i));
        assert_eq!(unit, units[i]);
        assert_eq!(taken.units(), removed.units());
        assert_eq!(taken.index(), removed.index());
    }
}

#[test]
fn take_keeps_order_of_ties() {
    let mut taken = TurnOrderList::new_sorted(vec![(Some(1), 2), (Some(2), 2), (Some(3), 2)]);
    let mut removed = taken.clone();
    assert_eq!(taken.take(Some(0)), (Some(1), 2));
    removed.remove(Some(0));
    assert_eq!(taken.units(), &vec![(Some(2), 2), (Some(3), 2)]);
    assert_eq!(taken.index(), 0);
    assert_eq!(taken.units(), removed.units());
}
