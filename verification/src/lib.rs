//! Core of a flexible board editor: a rectangular grid of typed cells
//! ("panels") coupled with an exact, invertible affine view transform between
//! grid coordinates and screen pixels. The grid grows on demand when an edit
//! falls outside its bounds and shrinks back to a minimal bounding box on
//! request, and in both cases the paired transform adjustment keeps every
//! surviving cell visually stationary on screen.

pub mod enum_map;
pub mod field;
pub mod assets;
pub mod codec;
pub mod color;
pub mod format;
pub mod input;
pub mod panel;
pub mod transform;
pub mod view;

pub use field::Field;
pub use panel::Panel;
pub use panel::PanelKind;
pub use transform::Transform;
pub use view::EditorView;
