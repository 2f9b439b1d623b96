//! Client-side route matching for a component-based single-page application.
//!
//! The library parses a browser location path into an application-defined
//! target value, keeps the currently active target, and decides how the
//! stored target and the rendered route react to location changes and
//! navigation requests.  The browser history subscription and the UI
//! framework wiring live outside the library and drive it with plain values.

pub mod demo;
pub mod digits;
pub mod path;
pub mod router;
pub mod target;
