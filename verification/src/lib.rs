//! Verified core of a back-testing and trading toolkit: candle levels and
//! time ranges, product symbol mapping between venues, the scheduling of
//! strategy calls over candles of two levels, the paging decisions used to
//! fetch a time range of candles, and the per-product book of a matching engine.
use vstd::prelude::*;

pub mod level;
pub mod product;
pub mod scanner;
pub mod fetch;
pub mod venue;
pub mod book;
pub mod delegate;

pub use level::{Level, Side, TimeRange};
pub use product::product_mapping;
pub use scanner::{IndexIter, Scanner};
pub use fetch::RangeFetch;
pub use book::ProductBook;
pub use delegate::DelegateState;

verus! {

} // verus!
