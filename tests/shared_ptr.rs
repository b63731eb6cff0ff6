use sm_pntrs::shared_ptr::{Heap, SharedPtr, WeakPtr};

#[test]
fn counts_through_clone_and_release() {
    let mut heap = Heap::new();
    let a = SharedPtr::new(&mut heap, 5);
    assert_eq!(a.strong_count(&heap), 1);
    let b = a.clone_strong(&mut heap);
    assert_eq!(a.strong_count(&heap), 2);
    assert!(a.ptr_eq(&b));
    assert_eq!(b.release(&mut heap), None);
    assert_eq!(a.strong_count(&heap), 1);
    assert_eq!(*a.get(&heap), 5);
    assert_eq!(a.release(&mut heap), Some(5));
}

#[test]
fn count_is_one_plus_clones_minus_releases() {
    let mut heap = Heap::new();
    let a = SharedPtr::new(&mut heap, String::from("payload"));
    let mut clones = Vec::new();
    for _ in 0..10 {
        clones.push(a.clone_strong(&mut heap));
    }
    assert_eq!(a.strong_count(&heap), 11);
    for _ in 0..4 {
        let c = clones.pop().unwrap();
        assert_eq!(c.release(&mut heap), None);
    }
    assert_eq!(a.strong_count(&heap), 7);
    assert_eq!(a.release(&mut heap), None);
    let mut dropped = Vec::new();
    while let Some(c) = clones.pop() {
        if let Some(p) = c.release(&mut heap) {
            dropped.push(p);
        }
    }
    assert_eq!(dropped, vec![String::from("payload")]);
}

#[test]
fn upgrade_succeeds_only_while_strong_pointers_remain() {
    let mut heap = Heap::new();
    let a = SharedPtr::new(&mut heap, 7u64);
    let w = a.downgrade(&mut heap);
    let w2 = w.clone_weak(&mut heap);
    assert_eq!(a.weak_count(&heap), 2);
    assert_eq!(a.strong_count(&heap), 1);
    let up = w.upgrade(&mut heap).unwrap();
    assert_eq!(a.strong_count(&heap), 2);
    assert_eq!(*up.get(&heap), 7);
    assert_eq!(up.release(&mut heap), None);
    assert_eq!(a.release(&mut heap), Some(7));
    assert_eq!(w.strong_count(&heap), 0);
    assert_eq!(w.weak_count(&heap), 2);
    assert!(w.upgrade(&mut heap).is_none());
    assert!(w2.upgrade(&mut heap).is_none());
    w2.release(&mut heap);
    assert_eq!(w.weak_count(&heap), 1);
    assert!(w.upgrade(&mut heap).is_none());
    w.release(&mut heap);
}

#[test]
fn downgrade_of_clone_upgrades_to_same_record() {
    let mut heap = Heap::new();
    let p = SharedPtr::new(&mut heap, 'x');
    let q = p.clone_strong(&mut heap);
    let w = q.downgrade(&mut heap);
    assert_eq!(p.strong_count(&heap), 2);
    let r = w.upgrade(&mut heap).unwrap();
    assert!(r.ptr_eq(&p));
    assert_eq!(p.strong_count(&heap), 3);
    assert_eq!(p.weak_count(&heap), 1);
    assert_eq!(*r.get(&heap), 'x');
}

#[test]
fn empty_weak_never_upgrades() {
    let mut heap: Heap<i32> = Heap::new();
    let w: WeakPtr<i32> = WeakPtr::empty();
    assert!(w.upgrade(&mut heap).is_none());
    assert_eq!(w.strong_count(&heap), 0);
    assert_eq!(w.weak_count(&heap), 0);
    let w2 = w.clone_weak(&mut heap);
    assert!(w2.upgrade(&mut heap).is_none());
}

#[test]
fn records_are_independent() {
    let mut heap = Heap::new();
    let a = SharedPtr::new(&mut heap, 1);
    let b = SharedPtr::new(&mut heap, 2);
    let a2 = a.clone_strong(&mut heap);
    assert!(!a.ptr_eq(&b));
    assert_eq!(b.strong_count(&heap), 1);
    assert_eq!(b.release(&mut heap), Some(2));
    assert_eq!(a2.strong_count(&heap), 2);
    *a.get_mut(&mut heap) += 10;
    assert_eq!(*a2.get(&heap), 11);
}
