//! A ring-buffer queue with a writer side and a reader side, and a two-slot
//! hand-off channel. Positions and slots are plain fields: what is proved is
//! the protocol run in sequence by one owner (index arithmetic, cached
//! positions, slot alternation); sharing a value between threads takes a lock
//! around it.

pub mod waitfree_channel;
pub mod waitfree_queue;
