//! An interactive Celsius / Fahrenheit converter: the integer conversions,
//! the text handling of each console line, and the decisions of the prompt loop.

pub mod convert;
pub mod session;
pub mod text;
