//! Persisted layout settings: sort key, direction, view mode and icon size.
//! The settings themselves are plain data; reading and writing them to disk
//! is the shell's concern.

use vstd::prelude::*;

verus! {

/// Secondary sort key for directory listings (directories always come
/// before files regardless of the key).
#[derive(Clone, Copy, Debug, PartialEq, Eq, Structural)]
pub enum SortKey {
    Name,
    Size,
    Filetype,
    DateModified,
}

/// How entries are presented.
#[derive(Clone, Copy, Debug, PartialEq, Eq, Structural)]
pub enum ViewMode {
    Grid,
    List,
}

/// Icon scale for the grid view.
#[derive(Clone, Copy, Debug, PartialEq, Eq, Structural)]
pub enum IconSize {
    Small,
    Medium,
    Large,
}

/// The layout settings the UI persists between sessions.
#[derive(Clone, Copy, Debug, PartialEq, Eq, Structural)]
pub struct LayoutCache {
    pub sort_key: SortKey,
    pub ascending: bool,
    pub view_mode: ViewMode,
    pub show_hidden: bool,
    pub show_extensions: bool,
    pub icon_size: IconSize,
}

impl Default for LayoutCache {
    /// Fresh settings: name-ascending grid, hidden entries off,
    /// extensions on, small icons.
    fn default() -> (r: Self)
        ensures
            r == (LayoutCache {
                sort_key: SortKey::Name,
                ascending: true,
                view_mode: ViewMode::Grid,
                show_hidden: false,
                show_extensions: true,
                icon_size: IconSize::Small,
            }),
    {
        LayoutCache {
            sort_key: SortKey::Name,
            ascending: true,
            view_mode: ViewMode::Grid,
            show_hidden: false,
            show_extensions: true,
            icon_size: IconSize::Small,
        }
    }
}

} // verus!
