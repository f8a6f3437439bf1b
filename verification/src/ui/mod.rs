//! Display helpers: the palette, truncation, and the text and geometry of
//! the panes.

pub mod theme;
pub mod text;
pub mod layout;
