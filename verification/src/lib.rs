//! A verified core for an FPV video editor: the project/timeline model, the
//! command bus with undo/redo, and the pure logic around media probing,
//! export argument construction, stabilization bookkeeping, LUT files,
//! update checks and the AI tool catalog.

pub mod timeline;
pub mod text;
pub mod media;
pub mod updates;
pub mod ai;
pub mod stabilize;
pub mod import;
pub mod gpu;
