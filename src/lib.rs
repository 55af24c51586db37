//! Paginated photo listing: request handling, sort parsing, query
//! construction, page metadata and hypermedia navigation links.
use vstd::prelude::*;

pub mod codec;
pub mod collections;
pub mod error;
pub mod links;
pub mod listing;
pub mod page;
pub mod photo;
pub mod request;
pub mod scan;
pub mod sorting;

verus! {

} // verus!
