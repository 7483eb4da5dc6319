//! State behind the render-facing widgets: the message bar, the
//! status line, and the document switcher. The drawing itself is the
//! host's; these hold and update what gets drawn.

pub mod message;
pub mod status_line;
pub mod switcher;
