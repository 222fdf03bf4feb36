//! Password generation with guaranteed character-class coverage, and the
//! cyclic selection lists that drive category and option choice.

pub mod generate;
pub mod list;
pub mod password;
