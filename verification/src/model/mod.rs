pub mod merge_grid;
pub mod physics;

pub use merge_grid::MergeGridSizer;
pub use physics::MergeCellSizePolicy;
