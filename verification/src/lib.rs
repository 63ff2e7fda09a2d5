//! The decisions of a terminal application that browses buckets: a bounded cache that keeps a
//! snapshot of itself on file, and the page that lists the buckets. Neither touches a file or
//! the terminal; what is to be written or drawn is handed out.

pub mod cache;
pub mod entry;
pub mod event;
pub mod history;
pub mod object;
pub mod pages;
pub mod recency;
pub mod snapshot;
pub mod text;
pub mod util;
pub mod widget;
