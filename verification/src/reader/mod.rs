//! The reading application: pages of a book, navigation, images and state.

pub mod adopt;
pub mod book_laws;
pub mod clock;
pub mod contents;
pub mod draw;
pub mod draw_laws;
pub mod flow;
pub mod image_laws;
pub mod image_scan;
pub mod images;
pub mod index;
pub mod label_laws;
pub mod labels;
pub mod lifecycle;
pub mod loading;
pub mod look;
pub mod look_laws;
pub mod measure;
pub mod opening;
pub mod opening_laws;
pub mod outcomes;
pub mod page_image;
pub mod paging;
pub mod paging_laws;
pub mod persist;
pub mod plate;
pub mod progress;
pub mod reading_laws;
pub mod run_laws;
pub mod runs;
pub mod screen;
pub mod session;
pub mod span;
pub mod state;
pub mod turning;
pub mod turning_laws;
pub mod wrap;
pub mod wrap_laws;
