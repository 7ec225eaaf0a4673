//! Decoding core for Android's compiled binary resource tables: chunk
//! addressing, the string pool and the resource-type table.

pub mod bytes;
pub mod chunk_header;
pub mod config;
pub mod error;
pub mod string_table;
pub mod table_type;

pub use bytes::ByteCursor;
pub use chunk_header::ChunkHeader;
pub use config::{Region, ResourceConfiguration};
pub use table_type::{Entry, EntryHeader, SimpleEntry, TableType, TableTypeDecoder};
pub use error::Error;
pub use string_table::{StringTable, StringTableDecoder, StringTableWrapper};
