pub mod dlist;
pub mod dynamic;
pub mod fixed;
