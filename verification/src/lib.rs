//! Reads the records of an HDF5 dataset as rows of typed columns.
//!
//! A [`descriptor::TypeDescriptor`] gives the binary shape of one record.
//! From it, [`schema`] derives the output columns, [`projection`] keeps the
//! columns that were asked for, [`decode`] turns the bytes of one record into
//! the cells of a [`chunk::DataChunk`], and [`scan`] walks the records of a
//! dataset one after the other, for one reader or for several that share a
//! [`position`].

pub mod bytes;
pub mod chunk;
pub mod decode;
pub mod descriptor;
pub mod position;
pub mod projection;
pub mod scan;
pub mod schema;
pub mod sites;
