//! Range-check helpers: a direct polynomial gate for small ranges and a
//! lookup argument for larger ones.

pub mod example1;
pub mod example2;
pub mod table;
