pub mod parser;
pub mod rrule;
pub mod sorting;
pub mod timezone;
pub mod types;
pub mod zoned_text;
