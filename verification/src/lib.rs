//! Greedy line layout for styled text.
//!
//! A stream of style, text and structure events is turned into lines of
//! styled [`Span`]s that fit a page's usable width, and a [`Page`] places the
//! spans of each line at absolute coordinates, left to right along one
//! baseline.
//!
//! All lengths and coordinates are integers in thousandths of a point; font
//! sizes are whole points. Text is measured with the metrics of the built-in
//! Times faces.
pub mod config;
pub mod error;
pub mod event;
pub mod font;
pub mod layout;
pub mod markdown;
pub mod model;
pub mod page;
pub mod span;

pub use config::LayoutConfig;
pub use error::LayoutError;
pub use event::Event;
pub use font::{measure, FontStyle};
pub use layout::{layout, LayoutState};
pub use markdown::layout_markdown;
pub use page::Page;
pub use span::{PositionedSpan, Span};
