//! Album-cover handling: the cache of decoded images and the decisions of
//! the image loader. Fetching, decoding threads and terminal graphics live
//! in the program around the library.

pub mod cache;
pub mod loader;
