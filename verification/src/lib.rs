//! Multi-file pastes over services that store one blob per upload: the range
//! and index formats, the choice of files on download, and the composition of
//! service capabilities.

pub mod arguments;
pub mod bins;
pub mod bitbucket;
pub mod configuration;
pub mod engines;
pub mod error;
pub mod index;
pub mod network;
pub mod number;
pub mod ordered;
pub mod paste;
pub mod prepare;
pub mod range;
pub mod requests;
pub mod select;
pub mod services;
pub mod text;
pub mod url;
