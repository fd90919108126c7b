//! Order statistics of a sample of integer keys: count, extremes, mode and
//! truncating nearest-rank percentiles, together with the order-preserving
//! encoding that lets finite IEEE-754 doubles be handled as such keys.

pub mod encoding;
pub mod field;
pub mod laws;
pub mod mode;
pub mod order;
pub mod percentile;
pub mod summary;
pub mod value;

pub use encoding::{bits_of_key, classify, collect_line, is_finite_bits, key_of_bits, Line};
pub use field::{Field, FIELD_COUNT};
pub use mode::{is_mode, mode_of, sorted_mode};
pub use order::{count, in_order, sorted};
pub use percentile::{nearest_rank, percentile, percentile_rank, rank};
pub use summary::{extremes, first_of, last_of, stats, Stats};
