//! The items that the code written by the scene language names.

pub use crate::color::Color;
pub use crate::objects::{
    arc, circle, color, ellipse, eq, eq_param, line, point, point_at, polygon, semicircle, Object,
    PointRef, SemicircleDir,
};
pub use crate::scene::Scene;
pub use crate::theme::Theme;
pub use crate::viewport::Viewport;
