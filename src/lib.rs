//! Parsing of the kernel's mount tables into a queryable snapshot.
//!
//! Two line grammars are recognized: the detailed per-process mount-info
//! format and the older whitespace-separated mount table. Both produce
//! [`MountPoint`] records, gathered in a [`MountInfo`] snapshot that answers
//! membership queries.
mod error;
mod fstype;
mod mount;
mod number;
mod options;
mod text;

pub use error::{MountInfoError, ParseLineError};
pub use fstype::FsType;
pub use mount::{MountInfo, MountPoint};
pub use number::NumberError;
pub use options::{MountOptions, ReadWrite};
pub use text::Delim;
