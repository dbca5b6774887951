//! Bringing texts in: clipboard, web pages, EPUB books, Syosetu novels,
//! subtitles, and the tokenization of a text before it is stored.
pub mod clipboard;
pub mod web;
pub mod epub;
pub mod syosetu;
pub mod syosetsu;
pub mod text;
pub mod subtitle;
