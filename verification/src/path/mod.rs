pub mod deduplicate;
pub mod segments;
pub mod smooth;
pub mod split;
pub mod source;
pub mod with_neighbours;
pub mod with_normal;
pub mod with_offset;

pub use deduplicate::{DeduplicateIterator, ValueEq};
pub use segments::SegmentsIterator;
pub use smooth::SmoothIterator;
pub use split::SplitIterator;
pub use source::{collect_points, PathSource, PointsSource};
pub use with_neighbours::{WithNeighbours, WithNeighboursIterator};
pub use with_normal::{WithNormal, WithNormalIterator};
pub use with_offset::{WithOffset, WithOffsetIterator};
