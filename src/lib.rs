//! A bridge between a uniform command/output protocol and reasoning engines that speak
//! their own text dialects: term model, dialect parser, output translation, output cache
//! and the expectation-driven driver.
pub mod term;
pub mod dialect;
pub mod output;
pub mod expectation;
pub mod runtime;
pub mod driver;
pub mod name_match;
pub mod session;
pub mod canonical;
