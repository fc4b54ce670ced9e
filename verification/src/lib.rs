//! Verified sequence containers with double-ended access.
//!
//! The central type is [`linked_list::LinkedList`], a double-ended sequence
//! with a mutable cursor that can split the sequence in two and splice whole
//! lists in at any position. Every public operation carries a contract over
//! the abstract sequence of elements, and the structural laws (split/splice
//! round trips, iteration order, equality) are proved alongside the code.
//!
//! Two simpler companions are provided: [`deque::List`], a plain double-ended
//! list without a cursor, and [`queue::List`], a single-ended FIFO queue.

pub mod deque;
pub mod linked_list;
pub mod queue;
