//! Contribution-calendar engine: turns commit history logs into per-day
//! commit counts, per-year statistics, and the exact sequence of drawing
//! operations of a calendar image.

pub mod calendar;
pub mod canvas;
pub mod history;
pub mod index;
pub mod intensity;
pub mod labels;
pub mod laws;
pub mod layout;
pub mod pipeline;
pub mod render;
pub mod stats;
pub mod summary;
pub mod table;
pub mod text;
pub mod theme;
pub mod years;
