use sm_pntrs::boxed::{
    box_deref_example, cons_list, deref_coercion_ex, deref_example, mybox_deref_example, BoxList,
    ExclusiveBox, MyBox,
};
use sm_pntrs::rc_list;

#[test]
fn exclusive_box_owns_its_value() {
    let mut b = ExclusiveBox::new(String::from("heap"));
    assert_eq!(b.get(), "heap");
    b.get_mut().push('!');
    assert_eq!(b.into_inner(), "heap!");
    ExclusiveBox::new(3).release();
}

#[test]
fn box_cons_list_holds_one_two_three() {
    let mut values = Vec::new();
    let mut l = cons_list();
    while let BoxList::Cons(x, tail) = l {
        values.push(x);
        l = tail.into_inner();
    }
    assert_eq!(values, vec![1, 2, 3]);
}

#[test]
fn deref_examples_run() {
    deref_example();
    box_deref_example();
    mybox_deref_example();
    deref_coercion_ex();
    assert_eq!(*MyBox::new(5).deref(), 5);
}

#[test]
fn shared_tail_counts() {
    rc_list::cons_list();
    assert_eq!(rc_list::cons_list_counting(), (1, 2, 3, 2));
}
