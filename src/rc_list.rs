use vstd::prelude::*;
use crate::shared_ptr::{Heap, SharedPtr};

verus! {

/// A cons list whose tails are shared: several lists may own one tail.
pub enum List {
    Cons(i32, SharedPtr<List>),
    Nil,
}

/// The list (5, (10, Nil)) in `heap`, owned by one strong pointer.
fn five_ten(heap: &mut Heap<List>) -> (a: SharedPtr<List>)
    requires
        old(heap).wf(),
    ensures
        final(heap).wf(),
        a.id() < final(heap)@.len(),
        final(heap)@[a.id() as int].strong == 1,
        final(heap)@[a.id() as int].weak == 0,
{
    let nil = SharedPtr::new(heap, List::Nil);
    let ten = SharedPtr::new(heap, List::Cons(10, nil));
    SharedPtr::new(heap, List::Cons(5, ten))
}

/// Two lists, (3, a) and (4, a), share the tail a = (5, (10, Nil)); a is then
/// owned three times over, by its own handle and by each of the two lists.
pub fn cons_list() {
    let mut heap: Heap<List> = Heap::new();
    let a = five_ten(&mut heap);
    let b = List::Cons(3, a.clone_strong(&mut heap));
    let c = List::Cons(4, a.clone_strong(&mut heap));
    assert(heap@[a.id() as int].strong == 3);
}

/// The strong count of a shared tail as two lists come to share it and one of
/// them goes away: after the tail is made, after the first list, after the
/// second, and after the second is released.
pub fn cons_list_counting() -> (counts: (usize, usize, usize, usize))
    ensures
        counts == (1usize, 2usize, 3usize, 2usize),
{
    let mut heap: Heap<List> = Heap::new();
    let a = five_ten(&mut heap);
    let after_a = a.strong_count(&heap);
    let b = List::Cons(3, a.clone_strong(&mut heap));
    let after_b = a.strong_count(&heap);
    let c = List::Cons(4, a.clone_strong(&mut heap));
    let after_c = a.strong_count(&heap);
    match c {
        List::Cons(_, tail) => {
            let _ = tail.release(&mut heap);
        },
        List::Nil => {},
    }
    let after_release = a.strong_count(&heap);
    (after_a, after_b, after_c, after_release)
}

} // verus!
