//! Small verified exercises: a doubly-linked deque over an arena, a
//! format-specification parser, typestate machines for posts and a vending
//! machine, repositories, and helpers that draw on randomness and hashing.

pub mod list;
pub mod laws;

pub mod format_spec;

pub mod moderation;
pub mod post;
pub mod user;
pub mod vending;

pub mod collections;
pub mod error;
pub mod global_stack;
pub mod repo;
pub mod thread_safety;
pub mod trinity;

pub mod birthday;
pub mod matrix;

mod chance;
pub mod email;
pub mod facts;
pub mod random;
pub mod secrets;
