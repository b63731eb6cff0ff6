use sm_pntrs::tree::{attach_child, new_node, parent_of, release_node, tree, TreeCounts};
use sm_pntrs::shared_ptr::Heap;

#[test]
fn leaf_outlives_its_branch() {
    let counts = tree();
    assert_eq!(
        counts,
        TreeCounts {
            leaf_initial: (1, 0),
            branch: (1, 1),
            leaf_attached: (2, 0),
            parent_alive: false,
            leaf_final: (1, 0),
        }
    );
}

#[test]
fn releasing_parent_keeps_children_held_elsewhere() {
    let mut heap = Heap::new();
    let parent = new_node(&mut heap, 1);
    let a = new_node(&mut heap, 2);
    let b = new_node(&mut heap, 3);
    attach_child(&mut heap, &parent, &a);
    attach_child(&mut heap, &parent, &b);
    assert_eq!(parent.weak_count(&heap), 2);
    assert_eq!(a.strong_count(&heap), 2);
    let up = parent_of(&mut heap, &a).unwrap();
    assert!(up.ptr_eq(&parent));
    assert_eq!(parent.strong_count(&heap), 2);
    release_node(&mut heap, up);
    release_node(&mut heap, parent);
    assert!(parent_of(&mut heap, &a).is_none());
    assert!(parent_of(&mut heap, &b).is_none());
    assert_eq!(a.strong_count(&heap), 1);
    assert_eq!(b.strong_count(&heap), 1);
    assert_eq!(a.get(&heap).value, 2);
    assert_eq!(b.get(&heap).value, 3);
}

#[test]
fn releasing_parent_destroys_children_held_only_by_it() {
    let mut heap = Heap::new();
    let root = new_node(&mut heap, 1);
    let mid = new_node(&mut heap, 2);
    let leaf = new_node(&mut heap, 3);
    attach_child(&mut heap, &root, &mid);
    attach_child(&mut heap, &mid, &leaf);
    release_node(&mut heap, mid);
    assert_eq!(leaf.strong_count(&heap), 2);
    release_node(&mut heap, root);
    assert_eq!(leaf.strong_count(&heap), 1);
    assert!(parent_of(&mut heap, &leaf).is_none());
    assert_eq!(leaf.get(&heap).value, 3);
}
