//! Single-pass search for the most profitable buy/sell pair in a series of
//! day-over-day price changes, with the data generation and the timing
//! summary that a benchmark around it needs.

pub mod laws;
pub mod prices;
pub mod report;
pub mod scan;
pub mod series;

pub use report::Run;
pub use scan::find_sell_buy;
pub use series::create_rnd_rel_stocks;
