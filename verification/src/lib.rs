//! The application layer of a small e-reader: paragraph typesetting, paging,
//! reading state and the launcher screens, with their behaviour proved.

pub mod book_record;
pub mod byte_laws;
pub mod bytes;
pub mod cover;
pub mod cover_cache;
pub mod device_laws;
pub mod digits;
pub mod fonts;
pub mod hash;
pub mod home;
pub mod layout;
pub mod library;
pub mod manager;
pub mod markup;
pub mod nav;
pub mod number_laws;
pub mod reader;
pub mod recent;
pub mod screen_laws;
pub mod sleep;
pub mod text;
pub mod ui;
pub mod utf8;
pub mod written_laws;
