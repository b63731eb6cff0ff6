//! Smart pointers over an explicit heap store: an exclusive box, a runtime-checked
//! cell, reference-counted strong and weak pointers, and parent/child trees built
//! from them.
pub mod shared_ptr;
pub mod cell;
pub mod tree;
pub mod rc_list;
pub mod boxed;
pub mod quota;
