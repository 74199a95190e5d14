//! Screen-measurement logic: edge detection on a captured screenshot,
//! the overlay's measurement and interaction rules, and the rules of the
//! project-content dump utility.

pub mod pixels;
pub mod edge_detector;
pub mod text;
pub mod overlay;
pub mod project_content;
