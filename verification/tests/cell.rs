use godot_cell::borrow_state::{BorrowError, BorrowRecord};
use godot_cell::cell::GdCell;
use godot_cell::panicking;

#[test]
fn new_cell_is_unborrowed() {
    let cell = GdCell::new(3, String::from("value"));
    assert_eq!(cell.id(), 3);
    assert!(cell.state().is_unborrowed());
}

#[test]
fn shared_guards_read_the_value() {
    let mut cell = GdCell::new(1, 41);
    let first = cell.borrow().unwrap();
    let second = cell.borrow().unwrap();
    assert!(first.is_live());
    assert_eq!(first.cell(), 1);
    assert_eq!(cell.get(&first), Ok(&41));
    assert_eq!(cell.get(&second), Ok(&41));
    assert_eq!(cell.state().shared_count(), 2);
}

#[test]
fn exclusive_guard_reads_and_writes_the_value() {
    let mut cell = GdCell::new(1, 41);
    let guard = cell.borrow_mut().unwrap();
    assert!(guard.is_live());
    assert_eq!(guard.cell(), 1);
    assert_eq!(guard.slot(), 0);
    assert_eq!(cell.get_exclusive(&guard), Ok(&41));
    *cell.get_mut(&guard).unwrap() += 1;
    assert_eq!(cell.get_exclusive(&guard), Ok(&42));
    assert_eq!(cell.state().depth(), 1);
}

#[test]
fn fail_fast_conflict() {
    let mut cell = GdCell::new(1, 5);
    let guard = cell.borrow_mut();
    assert!(guard.is_ok());
    let unrelated = cell.borrow();
    assert!(matches!(unrelated, Err(BorrowError::BorrowConflict)));
    let second = cell.borrow_mut();
    assert!(matches!(second, Err(BorrowError::BorrowConflict)));
    assert_eq!(cell.state().depth(), 1);
}

#[test]
fn exclusive_is_refused_until_every_shared_guard_is_released() {
    let mut cell = GdCell::new(1, 5);
    let mut guards = Vec::new();
    for _ in 0..4 {
        guards.push(cell.borrow().unwrap());
    }
    for guard in guards.iter_mut() {
        assert!(matches!(cell.borrow_mut(), Err(BorrowError::BorrowConflict)));
        assert_eq!(cell.release(guard), Ok(()));
    }
    assert!(cell.state().is_unborrowed());
    assert!(cell.borrow_mut().is_ok());
}

#[test]
fn reentrant_borrow_demotes_the_presented_guard() {
    let mut cell = GdCell::new(9, 5);
    let outer = cell.borrow_mut().unwrap();
    let (inner, demoted) = cell.borrow_mut_reentrant(&outer).unwrap();
    assert_eq!(inner.slot(), 1);
    assert_eq!(inner.cell(), 9);
    assert!(inner.is_live());
    assert_eq!(demoted.slot(), outer.slot());
    assert_eq!(demoted.cell(), 9);
    assert_eq!(cell.state().depth(), 2);
    assert_eq!(cell.state().record(0), Some(BorrowRecord { accessible: false }));
    assert_eq!(cell.state().record(1), Some(BorrowRecord { accessible: true }));
    assert_eq!(cell.get_exclusive(&outer), Err(BorrowError::InaccessibleAccess));
    assert!(matches!(cell.get_mut(&outer), Err(BorrowError::InaccessibleAccess)));
    assert_eq!(cell.get_exclusive(&inner), Ok(&5));
}

#[test]
fn releasing_the_nested_guard_restores_the_demoted_one() {
    let mut cell = GdCell::new(9, 5);
    let outer = cell.borrow_mut().unwrap();
    let (mut middle, _) = cell.borrow_mut_reentrant(&outer).unwrap();
    let (mut inner, _) = cell.borrow_mut_reentrant(&middle).unwrap();
    assert_eq!(cell.state().depth(), 3);
    *cell.get_mut(&inner).unwrap() = 6;
    assert_eq!(cell.release_mut(&mut inner), Ok(()));
    assert_eq!(cell.state().depth(), 2);
    assert_eq!(cell.state().record(0), Some(BorrowRecord { accessible: false }));
    assert_eq!(cell.state().record(1), Some(BorrowRecord { accessible: true }));
    assert_eq!(cell.get_exclusive(&middle), Ok(&6));
    assert_eq!(cell.get_exclusive(&outer), Err(BorrowError::InaccessibleAccess));
    assert_eq!(cell.release_mut(&mut middle), Ok(()));
    assert_eq!(cell.state().depth(), 1);
    assert_eq!(cell.state().record(0), Some(BorrowRecord { accessible: true }));
    assert_eq!(cell.get_exclusive(&outer), Ok(&6));
}

#[test]
fn nested_guards_round_trip_to_unborrowed() {
    let mut cell = GdCell::new(1, 0u32);
    let mut guards = vec![cell.borrow_mut().unwrap()];
    for depth in 1..20 {
        let (next, _) = cell.borrow_mut_reentrant(&guards[depth - 1]).unwrap();
        guards.push(next);
    }
    assert_eq!(cell.state().depth(), 20);
    while let Some(mut guard) = guards.pop() {
        assert_eq!(cell.release_mut(&mut guard), Ok(()));
    }
    assert!(cell.state().is_unborrowed());
}

#[test]
fn inaccessible_guard_never_reaches_the_value() {
    let mut cell = GdCell::new(1, 5);
    let outer = cell.borrow_mut().unwrap();
    let (mut inner, demoted) = cell.borrow_mut_reentrant(&outer).unwrap();
    assert_eq!(cell.get_inaccessible(&demoted), Err(BorrowError::InaccessibleAccess));
    let (mut innermost, _) = cell.borrow_mut_reentrant(&inner).unwrap();
    assert_eq!(cell.get_inaccessible(&demoted), Err(BorrowError::InaccessibleAccess));
    assert_eq!(cell.get_exclusive(&outer), Err(BorrowError::InaccessibleAccess));
    assert_eq!(cell.release_mut(&mut innermost), Ok(()));
    assert_eq!(cell.get_inaccessible(&demoted), Err(BorrowError::InaccessibleAccess));
    assert_eq!(cell.get_exclusive(&outer), Err(BorrowError::InaccessibleAccess));
    assert_eq!(cell.release_mut(&mut inner), Ok(()));
    assert_eq!(cell.get_inaccessible(&demoted), Err(BorrowError::InaccessibleAccess));
    assert_eq!(cell.get_exclusive(&outer), Ok(&5));
}

#[test]
fn reentry_with_a_demoted_guard_is_stale() {
    let mut cell = GdCell::new(1, 5);
    let outer = cell.borrow_mut().unwrap();
    let (_inner, _) = cell.borrow_mut_reentrant(&outer).unwrap();
    assert!(matches!(
        cell.borrow_mut_reentrant(&outer),
        Err(BorrowError::StaleGuardReentry)
    ));
    assert_eq!(cell.state().depth(), 2);
}

#[test]
fn reentry_with_a_released_guard_is_stale() {
    let mut cell = GdCell::new(1, 5);
    let mut outer = cell.borrow_mut().unwrap();
    assert_eq!(cell.release_mut(&mut outer), Ok(()));
    let _fresh = cell.borrow_mut().unwrap();
    assert!(matches!(
        cell.borrow_mut_reentrant(&outer),
        Err(BorrowError::StaleGuardReentry)
    ));
    assert_eq!(cell.state().depth(), 1);
}

#[test]
fn reentry_with_the_guard_of_another_cell_is_stale() {
    let mut here = GdCell::new(1, 5);
    let mut there = GdCell::new(2, 5);
    let _own = here.borrow_mut().unwrap();
    let foreign = there.borrow_mut().unwrap();
    assert!(matches!(
        here.borrow_mut_reentrant(&foreign),
        Err(BorrowError::StaleGuardReentry)
    ));
    assert_eq!(here.state().depth(), 1);
    assert_eq!(there.state().depth(), 1);
}

#[test]
fn released_guard_is_inert() {
    let mut cell = GdCell::new(1, 5);
    let mut shared = cell.borrow().unwrap();
    let kept = cell.borrow().unwrap();
    assert_eq!(cell.release(&mut shared), Ok(()));
    assert!(!shared.is_live());
    assert_eq!(cell.get(&shared), Err(BorrowError::InaccessibleAccess));
    assert_eq!(cell.get(&kept), Ok(&5));
    assert_eq!(cell.release(&mut shared), Ok(()));
    assert_eq!(cell.state().shared_count(), 1);

    let mut cell = GdCell::new(1, 5);
    let mut exclusive = cell.borrow_mut().unwrap();
    assert_eq!(cell.release_mut(&mut exclusive), Ok(()));
    assert!(!exclusive.is_live());
    assert_eq!(cell.get_exclusive(&exclusive), Err(BorrowError::InaccessibleAccess));
    assert!(matches!(cell.get_mut(&exclusive), Err(BorrowError::InaccessibleAccess)));
    assert_eq!(cell.release_mut(&mut exclusive), Ok(()));
    assert!(cell.state().is_unborrowed());
    let _again = cell.borrow_mut().unwrap();
    assert_eq!(cell.get_exclusive(&exclusive), Err(BorrowError::InaccessibleAccess));
    assert_eq!(cell.release_mut(&mut exclusive), Ok(()));
    assert_eq!(cell.state().depth(), 1);
}

#[test]
fn releasing_a_demoted_guard_is_refused() {
    let mut cell = GdCell::new(1, 5);
    let mut outer = cell.borrow_mut().unwrap();
    let (inner, _) = cell.borrow_mut_reentrant(&outer).unwrap();
    assert_eq!(cell.release_mut(&mut outer), Err(BorrowError::InaccessibleAccess));
    assert!(outer.is_live());
    assert_eq!(cell.state().depth(), 2);
    assert_eq!(cell.get_exclusive(&inner), Ok(&5));
}

#[test]
fn guards_of_another_cell_are_refused() {
    let mut here = GdCell::new(1, 5);
    let mut there = GdCell::new(2, 7);
    let _own = here.borrow().unwrap();
    let mut foreign = there.borrow().unwrap();
    assert_eq!(here.get(&foreign), Err(BorrowError::InaccessibleAccess));
    assert_eq!(here.release(&mut foreign), Err(BorrowError::InaccessibleAccess));
    assert!(foreign.is_live());
    assert_eq!(here.state().shared_count(), 1);
    assert_eq!(there.get(&foreign), Ok(&7));

    let mut here = GdCell::new(1, 5);
    let mut there = GdCell::new(2, 7);
    let _own = here.borrow_mut().unwrap();
    let mut foreign = there.borrow_mut().unwrap();
    assert_eq!(here.get_exclusive(&foreign), Err(BorrowError::InaccessibleAccess));
    assert!(matches!(here.get_mut(&foreign), Err(BorrowError::InaccessibleAccess)));
    assert_eq!(here.release_mut(&mut foreign), Err(BorrowError::InaccessibleAccess));
    assert_eq!(here.state().depth(), 1);
}

#[test]
fn panicking_names_the_fail_fast_cell() {
    let mut cell: panicking::GdCell<u8> = panicking::GdCell::new(1, 0);
    let outer: panicking::MutGuard = cell.borrow_mut().unwrap();
    let (mut inner, demoted): (panicking::MutGuard, panicking::InaccessibleGuard) =
        cell.borrow_mut_reentrant(&outer).unwrap();
    assert_eq!(demoted.slot(), 0);
    assert_eq!(cell.release_mut(&mut inner), Ok(()));
    let mut outer = outer;
    assert_eq!(cell.release_mut(&mut outer), Ok(()));
    let shared: panicking::RefGuard = cell.borrow().unwrap();
    assert_eq!(cell.get(&shared), Ok(&0));
}
