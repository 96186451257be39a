//! A constraint-system construction and satisfaction-checking layer for
//! arithmetic circuits in a tabular (row/column) arithmetization.
//!
//! The library lets a circuit author declare columns, selectors, polynomial
//! gates, lookups and equality constraints (`system`), populate a concrete
//! table of field elements for one circuit instance through a region-based
//! layouter (`assign`), and check whether every declared constraint holds of
//! the assigned table (`checker`). Sample circuits built on these primitives
//! live in `example1`, `fibonacci` and `range_check`.

pub mod assign;
pub mod checker;
pub mod column;
pub mod example1;
pub mod expr;
pub mod fibonacci;
pub mod field;
pub mod range_check;
pub mod system;
pub mod table;

pub use field::Fp;
pub use field::FIELD_MODULUS;
