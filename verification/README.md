# plump_apps

The application layer of a small e-reader, written in Verus: the functions of
the library have contracts, and Verus proves that they keep them. What the
system clock returns is not stated, nor how many bytes an allocator grants.

- `src/layout/` typesets paragraphs: the markup scanner, boxes and glue, the
  optimal line breaker, the line table, pages, and the cache of layouts.
- `src/reader/` is the reader: opening a book step by step, paging, turning,
  the contents sheet, images, what is drawn, and what is kept.
- `src/home.rs`, `src/library.rs`, `src/manager.rs`, `src/sleep.rs` are the
  screens around it, the dispatch between them, and what is kept across sleep.
- `src/book_record.rs`, `src/recent.rs`, `src/cover_cache.rs` are what is
  stored with a book.
- `tests/` runs the library on concrete values.
- `app/` draws on a display, writes files and does the work that the reader
  asks for.

The layouts of the bytes that are stored (the marks of the text stream in
`layout/scan.rs`, the record of a block in `markup.rs`, the directory and the
records of layouts in `layout/cache.rs`, covers in `cover_cache.rs`) are formats
of this library.

Properties that relate several functions are the public proof functions whose
names start with `law_`.
