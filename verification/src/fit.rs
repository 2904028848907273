//! Fit mode and view mode selection.

use vstd::prelude::*;

verus! {

/// How an image is scaled into the viewport.
#[derive(Clone, Copy, Debug, PartialEq, Eq, Structural)]
pub enum FitMode {
    /// Shrink to the viewport when too large, never enlarge.
    Normal,
    /// Scale to fill the viewport, enlarging small images.
    Fit,
}

impl FitMode {
    /// The other mode.
    pub open spec fn toggled(self) -> FitMode {
        match self {
            FitMode::Normal => FitMode::Fit,
            FitMode::Fit => FitMode::Normal,
        }
    }

    /// Toggle between `Normal` and `Fit`.
    pub fn next(self) -> (r: FitMode)
        ensures
            r == self.toggled(),
    {
        match self {
            FitMode::Normal => FitMode::Fit,
            FitMode::Fit => FitMode::Normal,
        }
    }
}

impl Default for FitMode {
    fn default() -> (r: FitMode)
        ensures
            r == FitMode::Normal,
    {
        FitMode::Normal
    }
}

/// Whether one image or a grid of thumbnails is shown.
#[derive(Clone, Copy, Debug, PartialEq, Eq, Structural)]
pub enum ViewMode {
    Single,
    Tile,
}

impl Default for ViewMode {
    fn default() -> (r: ViewMode)
        ensures
            r == ViewMode::Single,
    {
        ViewMode::Single
    }
}

} // verus!
