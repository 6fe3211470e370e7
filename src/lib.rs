//! Maximum Time Interval Error (MTIE) over a series of evenly spaced Time
//! Interval Error (TIE) samples.
//!
//! Samples are integers in a fixed unit of the caller's choosing. Two engines
//! compute the MTIE curve: an exact one over every interval and a pyramid one
//! over the intervals `2^k - 1`. `run` picks between them by sample count.
//! Each curve is a list of `(interval, mtie)` pairs, by increasing interval.
pub mod complete;
pub mod error;
pub mod fast;
pub mod input;
pub mod model;
pub mod select;

pub use complete::{excursion_of, mtie_complete, MAX_COMPLETE_SAMPLES};
pub use error::MtieError;
pub use fast::mtie_fast;
pub use input::{is_tie_data, select_data_lines, tie_data_lines, DataLine};
pub use select::{check_monotonically_increasing, run};
