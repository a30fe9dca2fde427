//! View and input core of a modal terminal text editor: highlight
//! composition, grid rendering, popup placement and the modal key dispatcher.
pub mod geometry;
pub mod popup;
pub mod input;
pub mod highlight;
pub mod text;
pub mod selection;
pub mod style;
pub mod render;
pub mod dispatch;
pub mod diagnostics;
pub mod statusline;
pub mod mouse;
pub mod gutter;
pub mod view;
