//! The pages of the application, as far as they decide anything.

pub mod bucket_list;
pub mod bucket_order;
pub mod bucket_rows;
pub mod util;
