//! A timeline of task execution spans, built from a newline-framed stream of trace events.
pub mod event_stream;
pub mod frame;
pub mod grid;
pub mod si_time;
pub mod span;
pub mod timeline;
pub mod viewport;
