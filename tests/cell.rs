use sm_pntrs::cell::{BorrowError, BorrowState, Cell};

#[test]
fn second_borrow_mut_is_refused() {
    let mut c = Cell::new(vec![1, 2]);
    let g = c.try_borrow_mut().unwrap();
    assert_eq!(c.borrow_state(), BorrowState::Exclusive);
    assert!(matches!(c.try_borrow_mut(), Err(BorrowError::AlreadyMutablyBorrowed)));
    assert!(matches!(c.try_borrow(), Err(BorrowError::AlreadyMutablyBorrowed)));
    c.write(&g).push(3);
    c.release_write(g);
    assert_eq!(c.borrow_state(), BorrowState::Unborrowed);
    assert_eq!(c.into_inner(), vec![1, 2, 3]);
}

#[test]
fn shared_borrows_stack() {
    let mut c = Cell::new(5);
    let g1 = c.borrow();
    let g2 = c.try_borrow().unwrap();
    assert_eq!(c.borrow_state(), BorrowState::Shared(2));
    assert_eq!(*c.read(&g1), 5);
    assert!(matches!(c.try_borrow_mut(), Err(BorrowError::AlreadyBorrowed)));
    c.release_read(g2);
    assert_eq!(c.borrow_state(), BorrowState::Shared(1));
    c.release_read(g1);
    assert_eq!(c.borrow_state(), BorrowState::Unborrowed);
    let w = c.borrow_mut();
    assert_eq!(c.replace(&w, 9), 5);
    c.release_write(w);
    assert_eq!(c.into_inner(), 9);
}
