//! The logic of a command-not-found handler for openSUSE: reading which
//! repositories a `.repo` file enables, where their solv caches lie for
//! zypper, dnf and dnf5, which search results to keep, and what to tell
//! the user.

pub mod text;
pub mod ini;
pub mod manager;
pub mod error;
pub mod search;
