use vstd::prelude::*;

pub mod text;
pub mod tokenizer;
pub mod conjugation;
pub mod romaji;
pub mod models;
pub mod dictionary;
pub mod llm;
pub mod srs;
pub mod reader;
pub mod screens;
pub mod config;
pub mod background;
pub mod html;
pub mod import;
pub mod stats;
pub mod review;
pub mod pointer;
pub mod panels;
pub mod chapters;
pub mod library;

verus! {
} // verus!
