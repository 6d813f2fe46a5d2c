//! The timeline: day-plan blocks, media files, and the checks of the
//! timeline routes and tools. Records that carry amounts of money are kept
//! by the store around this library.
pub mod dto;
pub mod media;
pub mod plan;
