//! A teleprinter cipher in two parts: the five-unit telegraph code with its
//! two shift states, and a twelve-wheel machine whose wheel heads give the key
//! that is combined with each code unit.

pub mod bank;
pub mod entropy;
pub mod ita2;
pub mod machine;
pub mod rotation;
pub mod wheel;
