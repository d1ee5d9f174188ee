//! Linked-list collections with verified contracts.
//!
//! The centrepiece is [`deque`], a double-ended queue over a doubly-linked
//! chain of nodes held in an arena, with insertion, removal and peeking at
//! both ends and a consuming two-ended iterator. Around it stand three
//! simpler variants of the same logical shape: [`stack`], a singly-linked
//! LIFO list with unique ownership of every node; [`persistent`], an
//! immutable list whose tails are structurally shared between lists; and
//! [`queue`], a singly-linked FIFO queue.
//!
//! Every list is specified against its sequence of elements: each public
//! operation states in its contract exactly which elements the structure
//! holds afterwards and what it returns.

pub mod deque;
pub mod persistent;
pub mod queue;
pub mod stack;
