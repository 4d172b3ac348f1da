//! Reader layout: paragraph-level (Knuth-Plass) line breaking with a
//! chapter-level line and page table.
//!
//!   - `items`: the boxes, glue and penalties of one paragraph
//!   - `breaker`: the bounded dynamic-programming paragraph breaker
//!   - `table`: the records of a chapter's lines and pages, and the key they
//!     are cached under

pub mod breaker;
pub mod breaker_laws;
pub mod breaker_spec;
pub mod breaker_window;
pub mod cache;
pub mod chapter;
pub mod chapter_laws;
pub mod convert;
pub mod cost_laws;
pub mod events;
pub mod items;
pub mod line_laws;
pub mod mark_laws;
pub mod page_laws;
pub mod paginate;
pub mod paginate_laws;
pub mod pipeline;
pub mod scan;
pub mod scan_laws;
pub mod store_laws;
pub mod table;
pub mod text_laws;

pub use crate::layout::table::{LayoutKey, LineLayout, PageLayout};
