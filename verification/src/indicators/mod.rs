pub mod fixed_time_bucket;
pub mod adaptive;
pub mod time_window;
pub mod lag;
pub mod monotone;
pub mod thinning;
pub mod minimum;
pub mod extrema;
pub mod bars;
pub mod price_level;
pub mod crossover;
pub mod supertrend;
pub mod elapsed;
