//! A verified HTTP request execution core: a declarative request model is
//! lowered into transport primitives (final URL, header list, encoded body),
//! handed to a pluggable transport, and the raw outcome is analyzed into a
//! structured response (canonical headers, cookies, timing breakdown, size
//! accounting, renderer detection, normalized error text).

pub mod analyzer;
pub mod builder;
pub mod classify;
pub mod encode;
pub mod execute;
pub mod laws;
pub mod text;
pub mod transport;
pub mod types;
