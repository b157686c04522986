//! Fits a sequence of text tokens into a fixed-size box: the largest usable
//! font size is searched for, the tokens are packed greedily into lines, the
//! lines are clipped to the height of the box, and an ellipsis closes the last
//! visible line where content was left out.

pub mod clamp;
pub mod fit;
pub mod laws;
pub mod layout;
pub mod lines;
pub mod render;
pub mod text;

pub use crate::clamp::{ConfigError, IWordInfo, InputResultForEllipsis, LineClamp, LineClampProps,
    Slot};
pub use crate::fit::WordFit;
pub use crate::layout::{Layout, LayoutError};
