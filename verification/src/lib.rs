//! Rendering core of a small retained-mode GUI toolkit.
//!
//! A tree of widgets is laid out by a flexbox engine, rasterized into a
//! B,G,R,A pixel buffer with alpha compositing, and queried with pointer
//! coordinates to find the front-most widget that handles clicks.

pub mod ables;
pub mod app;
pub mod buffer;
pub mod element;
pub mod engine;
pub mod font;
pub mod hit;
pub mod layout;
pub mod mouse;
pub mod paint;
pub mod style;
pub mod utils;
pub mod window;

pub use ables::{Childable, Paintable, Render, Stylable, Touchable};
pub use app::{AppContext, OpenError};
pub use buffer::Buffer;
pub use element::{div, text, Div, Element, Text};
pub use engine::Rect;
pub use font::{FontManager, Glyph, TextBitmap};
pub use hit::find_mouse_target;
pub use layout::LayoutError;
pub use mouse::{MouseButton, MouseEvent, PointerState};
pub use style::{AvailableSpace, Direction, Display, Size, Style};
pub use utils::Color;
pub use window::WindowSettings;
