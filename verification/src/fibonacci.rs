//! A Fibonacci circuit over a single advice column: each gated row `i`
//! constrains `table[i] + table[i + 1] == table[i + 2]`.

pub mod example2;
