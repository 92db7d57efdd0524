use vstd::prelude::*;

pub mod filter;
pub mod listing;
pub mod matcher;
pub mod scan;
pub mod search;
pub mod text;

pub use listing::FileInfo;
pub use scan::SearchMatch;

verus! {

} // verus!
