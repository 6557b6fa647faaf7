//! The logic of a fuzzy picker for file paths in the scrollback of a terminal
//! pane. A picked path is opened in the editor at its line, or copied as a Vim
//! target:
//!
//! ```text
//! src/util/lib.ts:450:12  ->  +call cursor(450,12) src/util/lib.ts
//! /etc/hosts:21           ->  +21 /etc/hosts
//! ```

pub mod chars;
pub mod decimal;
pub mod fuzzy;
pub mod key;
pub mod laws;
pub mod pane;
pub mod render;
pub mod request;
pub mod scrollback;
pub mod state;
pub mod target;
pub mod text;

pub use fuzzy::subsequence;
pub use key::{BareKey, KeyWithModifier};
pub use pane::{PaneId, PaneInfo, PaneManifest};
pub use render::Draw;
pub use request::{permissions, subscriptions, EventType, PermissionType};
pub use scrollback::{extract_targets, PaneContents, Target};
pub use state::{Effect, Event, Resume, State, Step};
pub use target::{as_target, line_col_start, parse_target, trim_junk, vim_target};
pub use text::keyhints;
