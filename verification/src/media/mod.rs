//! Media: codecs and mixing.
pub mod g711;
pub mod mixer;
