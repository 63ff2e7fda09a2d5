//! The state of the widgets that the pages are made of. Drawing them is not part of this
//! library.

pub mod input_dialog;
pub mod scroll_list;
pub mod sort_dialog;

pub use input_dialog::InputDialogState;
pub use scroll_list::ScrollListState;
pub use sort_dialog::{BucketListSortDialogState, BucketListSortType};
