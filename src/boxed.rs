use vstd::prelude::*;

verus! {

/// Sole owner of one heap-allocated value. It is never shared nor cloned; the
/// value is dropped exactly once, when the box is released or goes out of scope.
#[derive(Debug)]
pub struct ExclusiveBox<T> {
    inner: Box<T>,
}

impl<T> ExclusiveBox<T> {
    /// The value the box owns.
    pub closed spec fn value(&self) -> T {
        *self.inner
    }

    /// Moves `value` to the heap.
    pub fn new(value: T) -> (b: ExclusiveBox<T>)
        ensures
            b.value() == value,
    {
        ExclusiveBox { inner: Box::new(value) }
    }

    /// Read access to the value.
    pub fn get(&self) -> (v: &T)
        ensures
            *v == self.value(),
    {
        &*self.inner
    }

    /// Write access to the value.
    pub fn get_mut(&mut self) -> (v: &mut T)
        ensures
            *v == old(self).value(),
            final(self).value() == *final(v),
    {
        &mut *self.inner
    }

    /// Gives up the box and returns the value it owned.
    pub fn into_inner(self) -> (v: T)
        ensures
            v == self.value(),
    {
        *self.inner
    }

    /// Drops the value now, before the call returns.
    pub fn release(self) {
    }
}

/// A cons list whose tails each have one owner.
#[derive(Debug)]
pub enum BoxList {
    Cons(i32, ExclusiveBox<BoxList>),
    Nil,
}

/// The list (1, (2, (3, Nil))).
pub fn cons_list() -> (l: BoxList)
    ensures
        l matches BoxList::Cons(x, t) && x == 1 && (t.value() matches BoxList::Cons(y, u) && y == 2
            && (u.value() matches BoxList::Cons(z, v) && z == 3 && (v.value() is Nil))),
{
    BoxList::Cons(
        1,
        ExclusiveBox::new(
            BoxList::Cons(2, ExclusiveBox::new(BoxList::Cons(3, ExclusiveBox::new(BoxList::Nil)))),
        ),
    )
}

/// A reference reads the value it points to.
pub fn deref_example() {
    let x: i32 = 5;
    let y = &x;
    assert(5 == x);
    assert(5 == *y);
}

/// A box reads the value it owns, a copy of `x`.
pub fn box_deref_example() {
    let x: i32 = 5;
    let y = Box::new(x);
    assert(5 == x);
    assert(5 == *y);
}

/// A one-field wrapper that hands out its field by reference.
pub struct MyBox<T>(T);

impl<T> MyBox<T> {
    pub closed spec fn value(&self) -> T {
        self.0
    }

    pub fn new(x: T) -> (b: MyBox<T>)
        ensures
            b.value() == x,
    {
        MyBox(x)
    }

    /// The wrapped value, by reference.
    pub fn deref(&self) -> (v: &T)
        ensures
            *v == self.value(),
    {
        &self.0
    }
}

/// A `MyBox` reads the value it wraps.
pub fn mybox_deref_example() {
    let x: i32 = 5;
    let y = MyBox::new(x);
    assert(5 == x);
    let v = y.deref();
    assert(5 == *v);
}

/// A string reached through a `MyBox` and then as a `&str` is the string put in.
pub fn deref_coercion_ex() {
    let name = "Justin".to_owned();
    let ghost text = name@;
    let direct: &str = name.as_str();
    assert(direct@ == text);
    let m = MyBox::new(name);
    let through_box: &str = m.deref().as_str();
    assert(through_box@ == text);
}

} // verus!
