//! Daily health statistics for a chat bot: a cache of time series that is
//! refreshed as a whole, the metrics derived from a series, a small
//! language of arithmetic expressions over the counts of a day, and the
//! data handed to a chart renderer.
//!
//! All arithmetic is exact. A derived value is a fraction of two integers
//! ([`ratio::Ratio`] for a metric, [`wide::Wide`] for the value of an
//! expression), so a contract states the value that a function returns and
//! not an approximation of it; who draws the values turns them into floats
//! at the last moment.
//!
//! The library neither fetches nor draws nor sends. [`scheduler`] says what
//! the program around it is to do next, [`bot::Coronabot`] answers a message
//! with a text and the data of a chart, and [`chart`] makes the final
//! message of what came of drawing it. [`shared::SharedBot`] is the bot for
//! one thread that refreshes and many that ask. What the library takes on
//! trust of other crates stands in [`outside`].

pub mod bot;
pub mod cache;
pub mod calendar;
pub mod chart;
pub mod command;
pub mod expr;
pub mod lexer;
pub mod metrics;
pub mod outside;
pub mod ratio;
pub mod record;
pub mod scheduler;
pub mod scores;
pub mod shared;
pub mod summary;
pub mod text;
pub mod wide;

pub use crate::bot::Coronabot;
pub use crate::cache::{construct_states_map, StatsCache};
pub use crate::record::DailyRecord;
pub use crate::shared::SharedBot;
