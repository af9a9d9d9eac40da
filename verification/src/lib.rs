//! Base64 transcoding with the standard 64-symbol alphabet and `=` padding,
//! together with the state of a small interactive session that shows an input
//! line, its encoding and its decoding side by side.

pub mod alphabet;
pub mod decode;
pub mod encode;
pub mod session;
pub mod text;
pub mod theorems;

pub use alphabet::{get_table_index, N, PAD_CHAR, TABLE};
