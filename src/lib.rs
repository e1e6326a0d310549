//! Memory search core: numeric query language, page scanner with refinement,
//! data-type registry and the decision steps around process memory access.

pub mod words;
pub mod decimal;
pub mod data_type;
pub mod query;
pub mod scanner;
pub mod matcher;
pub mod process;
pub mod address;
