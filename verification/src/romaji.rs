//! Romaji (Wapuro romanization) to hiragana conversion.
use vstd::prelude::*;

use crate::text::{is_ascii_alpha, push_chars, to_chars, lowercase_of, to_lowercase, all_ascii, ascii_lower, ascii_lower_char, is_ascii_char};

verus! {

pub open spec fn opt_chars(o: Option<Vec<char>>) -> Option<Seq<char>> {
    match o {
        Some(v) => Some(v@),
        None => None,
    }
}

/// Kana for the 1-letter romaji syllables of the conversion table.
pub open spec fn kana1(a: char) -> Option<Seq<char>> {
    match (a,) {
        ('a',) => Some(seq!['あ']),
        ('i',) => Some(seq!['い']),
        ('u',) => Some(seq!['う']),
        ('e',) => Some(seq!['え']),
        ('o',) => Some(seq!['お']),
        _ => None,
    }
}

fn kana1_exec(a: char) -> (r: Option<Vec<char>>)
    ensures
        opt_chars(r) == kana1(a),
{
    match (a,) {
        ('a',) => Some(vec!['あ']),
        ('i',) => Some(vec!['い']),
        ('u',) => Some(vec!['う']),
        ('e',) => Some(vec!['え']),
        ('o',) => Some(vec!['お']),
        _ => None,
    }
}

/// Kana for the 2-letter romaji syllables of the conversion table.
pub open spec fn kana2(a: char, b: char) -> Option<Seq<char>> {
    match (a, b) {
        ('k', 'a') => Some(seq!['か']),
        ('k', 'i') => Some(seq!['き']),
        ('k', 'u') => Some(seq!['く']),
        ('k', 'e') => Some(seq!['け']),
        ('k', 'o') => Some(seq!['こ']),
        ('s', 'a') => Some(seq!['さ']),
        ('s', 'i') => Some(seq!['し']),
        ('s', 'u') => Some(seq!['す']),
        ('s', 'e') => Some(seq!['せ']),
        ('s', 'o') => Some(seq!['そ']),
        ('t', 'a') => Some(seq!['た']),
        ('t', 'i') => Some(seq!['ち']),
        ('t', 'u') => Some(seq!['つ']),
        ('t', 'e') => Some(seq!['て']),
        ('t', 'o') => Some(seq!['と']),
        ('n', 'a') => Some(seq!['な']),
        ('n', 'i') => Some(seq!['に']),
        ('n', 'u') => Some(seq!['ぬ']),
        ('n', 'e') => Some(seq!['ね']),
        ('n', 'o') => Some(seq!['の']),
        ('h', 'a') => Some(seq!['は']),
        ('h', 'i') => Some(seq!['ひ']),
        ('h', 'u') => Some(seq!['ふ']),
        ('h', 'e') => Some(seq!['へ']),
        ('h', 'o') => Some(seq!['ほ']),
        ('m', 'a') => Some(seq!['ま']),
        ('m', 'i') => Some(seq!['み']),
        ('m', 'u') => Some(seq!['む']),
        ('m', 'e') => Some(seq!['め']),
        ('m', 'o') => Some(seq!['も']),
        ('r', 'a') => Some(seq!['ら']),
        ('r', 'i') => Some(seq!['り']),
        ('r', 'u') => Some(seq!['る']),
        ('r', 'e') => Some(seq!['れ']),
        ('r', 'o') => Some(seq!['ろ']),
        ('y', 'a') => Some(seq!['や']),
        ('y', 'i') => Some(seq!['い']),
        ('y', 'u') => Some(seq!['ゆ']),
        ('y', 'e') => Some(seq!['い', 'ぇ']),
        ('y', 'o') => Some(seq!['よ']),
        ('w', 'a') => Some(seq!['わ']),
        ('w', 'i') => Some(seq!['ゐ']),
        ('w', 'u') => Some(seq!['う']),
        ('w', 'e') => Some(seq!['ゑ']),
        ('w', 'o') => Some(seq!['を']),
        ('g', 'a') => Some(seq!['が']),
        ('g', 'i') => Some(seq!['ぎ']),
        ('g', 'u') => Some(seq!['ぐ']),
        ('g', 'e') => Some(seq!['げ']),
        ('g', 'o') => Some(seq!['ご']),
        ('z', 'a') => Some(seq!['ざ']),
        ('z', 'i') => Some(seq!['じ']),
        ('z', 'u') => Some(seq!['ず']),
        ('z', 'e') => Some(seq!['ぜ']),
        ('z', 'o') => Some(seq!['ぞ']),
        ('d', 'a') => Some(seq!['だ']),
        ('d', 'i') => Some(seq!['ぢ']),
        ('d', 'u') => Some(seq!['づ']),
        ('d', 'e') => Some(seq!['で']),
        ('d', 'o') => Some(seq!['ど']),
        ('b', 'a') => Some(seq!['ば']),
        ('b', 'i') => Some(seq!['び']),
        ('b', 'u') => Some(seq!['ぶ']),
        ('b', 'e') => Some(seq!['べ']),
        ('b', 'o') => Some(seq!['ぼ']),
        ('p', 'a') => Some(seq!['ぱ']),
        ('p', 'i') => Some(seq!['ぴ']),
        ('p', 'u') => Some(seq!['ぷ']),
        ('p', 'e') => Some(seq!['ぺ']),
        ('p', 'o') => Some(seq!['ぽ']),
        ('j', 'a') => Some(seq!['じ', 'ゃ']),
        ('j', 'i') => Some(seq!['じ']),
        ('j', 'u') => Some(seq!['じ', 'ゅ']),
        ('j', 'e') => Some(seq!['じ', 'ぇ']),
        ('j', 'o') => Some(seq!['じ', 'ょ']),
        ('f', 'a') => Some(seq!['ふ', 'ぁ']),
        ('f', 'i') => Some(seq!['ふ', 'ぃ']),
        ('f', 'u') => Some(seq!['ふ']),
        ('f', 'e') => Some(seq!['ふ', 'ぇ']),
        ('f', 'o') => Some(seq!['ふ', 'ぉ']),
        ('v', 'a') => Some(seq!['ゔ', 'ぁ']),
        ('v', 'i') => Some(seq!['ゔ', 'ぃ']),
        ('v', 'u') => Some(seq!['ゔ']),
        ('v', 'e') => Some(seq!['ゔ', 'ぇ']),
        ('v', 'o') => Some(seq!['ゔ', 'ぉ']),
        _ => None,
    }
}

fn kana2_exec(a: char, b: char) -> (r: Option<Vec<char>>)
    ensures
        opt_chars(r) == kana2(a, b),
{
    match (a, b) {
        ('k', 'a') => Some(vec!['か']),
        ('k', 'i') => Some(vec!['き']),
        ('k', 'u') => Some(vec!['く']),
        ('k', 'e') => Some(vec!['け']),
        ('k', 'o') => Some(vec!['こ']),
        ('s', 'a') => Some(vec!['さ']),
        ('s', 'i') => Some(vec!['し']),
        ('s', 'u') => Some(vec!['す']),
        ('s', 'e') => Some(vec!['せ']),
        ('s', 'o') => Some(vec!['そ']),
        ('t', 'a') => Some(vec!['た']),
        ('t', 'i') => Some(vec!['ち']),
        ('t', 'u') => Some(vec!['つ']),
        ('t', 'e') => Some(vec!['て']),
        ('t', 'o') => Some(vec!['と']),
        ('n', 'a') => Some(vec!['な']),
        ('n', 'i') => Some(vec!['に']),
        ('n', 'u') => Some(vec!['ぬ']),
        ('n', 'e') => Some(vec!['ね']),
        ('n', 'o') => Some(vec!['の']),
        ('h', 'a') => Some(vec!['は']),
        ('h', 'i') => Some(vec!['ひ']),
        ('h', 'u') => Some(vec!['ふ']),
        ('h', 'e') => Some(vec!['へ']),
        ('h', 'o') => Some(vec!['ほ']),
        ('m', 'a') => Some(vec!['ま']),
        ('m', 'i') => Some(vec!['み']),
        ('m', 'u') => Some(vec!['む']),
        ('m', 'e') => Some(vec!['め']),
        ('m', 'o') => Some(vec!['も']),
        ('r', 'a') => Some(vec!['ら']),
        ('r', 'i') => Some(vec!['り']),
        ('r', 'u') => Some(vec!['る']),
        ('r', 'e') => Some(vec!['れ']),
        ('r', 'o') => Some(vec!['ろ']),
        ('y', 'a') => Some(vec!['や']),
        ('y', 'i') => Some(vec!['い']),
        ('y', 'u') => Some(vec!['ゆ']),
        ('y', 'e') => Some(vec!['い', 'ぇ']),
        ('y', 'o') => Some(vec!['よ']),
        ('w', 'a') => Some(vec!['わ']),
        ('w', 'i') => Some(vec!['ゐ']),
        ('w', 'u') => Some(vec!['う']),
        ('w', 'e') => Some(vec!['ゑ']),
        ('w', 'o') => Some(vec!['を']),
        ('g', 'a') => Some(vec!['が']),
        ('g', 'i') => Some(vec!['ぎ']),
        ('g', 'u') => Some(vec!['ぐ']),
        ('g', 'e') => Some(vec!['げ']),
        ('g', 'o') => Some(vec!['ご']),
        ('z', 'a') => Some(vec!['ざ']),
        ('z', 'i') => Some(vec!['じ']),
        ('z', 'u') => Some(vec!['ず']),
        ('z', 'e') => Some(vec!['ぜ']),
        ('z', 'o') => Some(vec!['ぞ']),
        ('d', 'a') => Some(vec!['だ']),
        ('d', 'i') => Some(vec!['ぢ']),
        ('d', 'u') => Some(vec!['づ']),
        ('d', 'e') => Some(vec!['で']),
        ('d', 'o') => Some(vec!['ど']),
        ('b', 'a') => Some(vec!['ば']),
        ('b', 'i') => Some(vec!['び']),
        ('b', 'u') => Some(vec!['ぶ']),
        ('b', 'e') => Some(vec!['べ']),
        ('b', 'o') => Some(vec!['ぼ']),
        ('p', 'a') => Some(vec!['ぱ']),
        ('p', 'i') => Some(vec!['ぴ']),
        ('p', 'u') => Some(vec!['ぷ']),
        ('p', 'e') => Some(vec!['ぺ']),
        ('p', 'o') => Some(vec!['ぽ']),
        ('j', 'a') => Some(vec!['じ', 'ゃ']),
        ('j', 'i') => Some(vec!['じ']),
        ('j', 'u') => Some(vec!['じ', 'ゅ']),
        ('j', 'e') => Some(vec!['じ', 'ぇ']),
        ('j', 'o') => Some(vec!['じ', 'ょ']),
        ('f', 'a') => Some(vec!['ふ', 'ぁ']),
        ('f', 'i') => Some(vec!['ふ', 'ぃ']),
        ('f', 'u') => Some(vec!['ふ']),
        ('f', 'e') => Some(vec!['ふ', 'ぇ']),
        ('f', 'o') => Some(vec!['ふ', 'ぉ']),
        ('v', 'a') => Some(vec!['ゔ', 'ぁ']),
        ('v', 'i') => Some(vec!['ゔ', 'ぃ']),
        ('v', 'u') => Some(vec!['ゔ']),
        ('v', 'e') => Some(vec!['ゔ', 'ぇ']),
        ('v', 'o') => Some(vec!['ゔ', 'ぉ']),
        _ => None,
    }
}

/// Kana for the 3-letter romaji syllables of the conversion table.
pub open spec fn kana3(a: char, b: char, c: char) -> Option<Seq<char>> {
    match (a, b, c) {
        ('s', 'h', 'a') => Some(seq!['し', 'ゃ']),
        ('s', 'h', 'i') => Some(seq!['し']),
        ('s', 'h', 'u') => Some(seq!['し', 'ゅ']),
        ('s', 'h', 'o') => Some(seq!['し', 'ょ']),
        ('c', 'h', 'i') => Some(seq!['ち']),
        ('t', 's', 'u') => Some(seq!['つ']),
        ('c', 'h', 'a') => Some(seq!['ち', 'ゃ']),
        ('c', 'h', 'u') => Some(seq!['ち', 'ゅ']),
        ('c', 'h', 'o') => Some(seq!['ち', 'ょ']),
        ('t', 'y', 'a') => Some(seq!['ち', 'ゃ']),
        ('t', 'y', 'i') => Some(seq!['ち', 'ぃ']),
        ('t', 'y', 'u') => Some(seq!['ち', 'ゅ']),
        ('t', 'y', 'e') => Some(seq!['ち', 'ぇ']),
        ('t', 'y', 'o') => Some(seq!['ち', 'ょ']),
        ('n', 'y', 'a') => Some(seq!['に', 'ゃ']),
        ('n', 'y', 'i') => Some(seq!['に', 'ぃ']),
        ('n', 'y', 'u') => Some(seq!['に', 'ゅ']),
        ('n', 'y', 'e') => Some(seq!['に', 'ぇ']),
        ('n', 'y', 'o') => Some(seq!['に', 'ょ']),
        ('h', 'y', 'a') => Some(seq!['ひ', 'ゃ']),
        ('h', 'y', 'i') => Some(seq!['ひ', 'ぃ']),
        ('h', 'y', 'u') => Some(seq!['ひ', 'ゅ']),
        ('h', 'y', 'e') => Some(seq!['ひ', 'ぇ']),
        ('h', 'y', 'o') => Some(seq!['ひ', 'ょ']),
        ('m', 'y', 'a') => Some(seq!['み', 'ゃ']),
        ('m', 'y', 'i') => Some(seq!['み', 'ぃ']),
        ('m', 'y', 'u') => Some(seq!['み', 'ゅ']),
        ('m', 'y', 'e') => Some(seq!['み', 'ぇ']),
        ('m', 'y', 'o') => Some(seq!['み', 'ょ']),
        ('r', 'y', 'a') => Some(seq!['り', 'ゃ']),
        ('r', 'y', 'i') => Some(seq!['り', 'ぃ']),
        ('r', 'y', 'u') => Some(seq!['り', 'ゅ']),
        ('r', 'y', 'e') => Some(seq!['り', 'ぇ']),
        ('r', 'y', 'o') => Some(seq!['り', 'ょ']),
        ('g', 'y', 'a') => Some(seq!['ぎ', 'ゃ']),
        ('g', 'y', 'i') => Some(seq!['ぎ', 'ぃ']),
        ('g', 'y', 'u') => Some(seq!['ぎ', 'ゅ']),
        ('g', 'y', 'e') => Some(seq!['ぎ', 'ぇ']),
        ('g', 'y', 'o') => Some(seq!['ぎ', 'ょ']),
        ('b', 'y', 'a') => Some(seq!['び', 'ゃ']),
        ('b', 'y', 'i') => Some(seq!['び', 'ぃ']),
        ('b', 'y', 'u') => Some(seq!['び', 'ゅ']),
        ('b', 'y', 'e') => Some(seq!['び', 'ぇ']),
        ('b', 'y', 'o') => Some(seq!['び', 'ょ']),
        ('p', 'y', 'a') => Some(seq!['ぴ', 'ゃ']),
        ('p', 'y', 'i') => Some(seq!['ぴ', 'ぃ']),
        ('p', 'y', 'u') => Some(seq!['ぴ', 'ゅ']),
        ('p', 'y', 'e') => Some(seq!['ぴ', 'ぇ']),
        ('p', 'y', 'o') => Some(seq!['ぴ', 'ょ']),
        ('k', 'y', 'a') => Some(seq!['き', 'ゃ']),
        ('k', 'y', 'i') => Some(seq!['き', 'ぃ']),
        ('k', 'y', 'u') => Some(seq!['き', 'ゅ']),
        ('k', 'y', 'e') => Some(seq!['き', 'ぇ']),
        ('k', 'y', 'o') => Some(seq!['き', 'ょ']),
        ('j', 'y', 'a') => Some(seq!['じ', 'ゃ']),
        ('j', 'y', 'i') => Some(seq!['じ', 'ぃ']),
        ('j', 'y', 'u') => Some(seq!['じ', 'ゅ']),
        ('j', 'y', 'e') => Some(seq!['じ', 'ぇ']),
        ('j', 'y', 'o') => Some(seq!['じ', 'ょ']),
        ('d', 'y', 'a') => Some(seq!['ぢ', 'ゃ']),
        ('d', 'y', 'i') => Some(seq!['ぢ', 'ぃ']),
        ('d', 'y', 'u') => Some(seq!['ぢ', 'ゅ']),
        ('d', 'y', 'e') => Some(seq!['ぢ', 'ぇ']),
        ('d', 'y', 'o') => Some(seq!['ぢ', 'ょ']),
        _ => None,
    }
}

fn kana3_exec(a: char, b: char, c: char) -> (r: Option<Vec<char>>)
    ensures
        opt_chars(r) == kana3(a, b, c),
{
    match (a, b, c) {
        ('s', 'h', 'a') => Some(vec!['し', 'ゃ']),
        ('s', 'h', 'i') => Some(vec!['し']),
        ('s', 'h', 'u') => Some(vec!['し', 'ゅ']),
        ('s', 'h', 'o') => Some(vec!['し', 'ょ']),
        ('c', 'h', 'i') => Some(vec!['ち']),
        ('t', 's', 'u') => Some(vec!['つ']),
        ('c', 'h', 'a') => Some(vec!['ち', 'ゃ']),
        ('c', 'h', 'u') => Some(vec!['ち', 'ゅ']),
        ('c', 'h', 'o') => Some(vec!['ち', 'ょ']),
        ('t', 'y', 'a') => Some(vec!['ち', 'ゃ']),
        ('t', 'y', 'i') => Some(vec!['ち', 'ぃ']),
        ('t', 'y', 'u') => Some(vec!['ち', 'ゅ']),
        ('t', 'y', 'e') => Some(vec!['ち', 'ぇ']),
        ('t', 'y', 'o') => Some(vec!['ち', 'ょ']),
        ('n', 'y', 'a') => Some(vec!['に', 'ゃ']),
        ('n', 'y', 'i') => Some(vec!['に', 'ぃ']),
        ('n', 'y', 'u') => Some(vec!['に', 'ゅ']),
        ('n', 'y', 'e') => Some(vec!['に', 'ぇ']),
        ('n', 'y', 'o') => Some(vec!['に', 'ょ']),
        ('h', 'y', 'a') => Some(vec!['ひ', 'ゃ']),
        ('h', 'y', 'i') => Some(vec!['ひ', 'ぃ']),
        ('h', 'y', 'u') => Some(vec!['ひ', 'ゅ']),
        ('h', 'y', 'e') => Some(vec!['ひ', 'ぇ']),
        ('h', 'y', 'o') => Some(vec!['ひ', 'ょ']),
        ('m', 'y', 'a') => Some(vec!['み', 'ゃ']),
        ('m', 'y', 'i') => Some(vec!['み', 'ぃ']),
        ('m', 'y', 'u') => Some(vec!['み', 'ゅ']),
        ('m', 'y', 'e') => Some(vec!['み', 'ぇ']),
        ('m', 'y', 'o') => Some(vec!['み', 'ょ']),
        ('r', 'y', 'a') => Some(vec!['り', 'ゃ']),
        ('r', 'y', 'i') => Some(vec!['り', 'ぃ']),
        ('r', 'y', 'u') => Some(vec!['り', 'ゅ']),
        ('r', 'y', 'e') => Some(vec!['り', 'ぇ']),
        ('r', 'y', 'o') => Some(vec!['り', 'ょ']),
        ('g', 'y', 'a') => Some(vec!['ぎ', 'ゃ']),
        ('g', 'y', 'i') => Some(vec!['ぎ', 'ぃ']),
        ('g', 'y', 'u') => Some(vec!['ぎ', 'ゅ']),
        ('g', 'y', 'e') => Some(vec!['ぎ', 'ぇ']),
        ('g', 'y', 'o') => Some(vec!['ぎ', 'ょ']),
        ('b', 'y', 'a') => Some(vec!['び', 'ゃ']),
        ('b', 'y', 'i') => Some(vec!['び', 'ぃ']),
        ('b', 'y', 'u') => Some(vec!['び', 'ゅ']),
        ('b', 'y', 'e') => Some(vec!['び', 'ぇ']),
        ('b', 'y', 'o') => Some(vec!['び', 'ょ']),
        ('p', 'y', 'a') => Some(vec!['ぴ', 'ゃ']),
        ('p', 'y', 'i') => Some(vec!['ぴ', 'ぃ']),
        ('p', 'y', 'u') => Some(vec!['ぴ', 'ゅ']),
        ('p', 'y', 'e') => Some(vec!['ぴ', 'ぇ']),
        ('p', 'y', 'o') => Some(vec!['ぴ', 'ょ']),
        ('k', 'y', 'a') => Some(vec!['き', 'ゃ']),
        ('k', 'y', 'i') => Some(vec!['き', 'ぃ']),
        ('k', 'y', 'u') => Some(vec!['き', 'ゅ']),
        ('k', 'y', 'e') => Some(vec!['き', 'ぇ']),
        ('k', 'y', 'o') => Some(vec!['き', 'ょ']),
        ('j', 'y', 'a') => Some(vec!['じ', 'ゃ']),
        ('j', 'y', 'i') => Some(vec!['じ', 'ぃ']),
        ('j', 'y', 'u') => Some(vec!['じ', 'ゅ']),
        ('j', 'y', 'e') => Some(vec!['じ', 'ぇ']),
        ('j', 'y', 'o') => Some(vec!['じ', 'ょ']),
        ('d', 'y', 'a') => Some(vec!['ぢ', 'ゃ']),
        ('d', 'y', 'i') => Some(vec!['ぢ', 'ぃ']),
        ('d', 'y', 'u') => Some(vec!['ぢ', 'ゅ']),
        ('d', 'y', 'e') => Some(vec!['ぢ', 'ぇ']),
        ('d', 'y', 'o') => Some(vec!['ぢ', 'ょ']),
        _ => None,
    }
}

/// Kana for the 4-letter romaji syllables of the conversion table.
pub open spec fn kana4(a: char, b: char, c: char, d: char) -> Option<Seq<char>> {
    match (a, b, c, d) {
        ('x', 't', 's', 'u') => Some(seq!['っ']),
        _ => None,
    }
}

fn kana4_exec(a: char, b: char, c: char, d: char) -> (r: Option<Vec<char>>)
    ensures
        opt_chars(r) == kana4(a, b, c, d),
{
    match (a, b, c, d) {
        ('x', 't', 's', 'u') => Some(vec!['っ']),
        _ => None,
    }
}
/// Kana for a romaji syllable of the conversion table.
pub open spec fn kana_of(k: Seq<char>) -> Option<Seq<char>> {
    if k.len() == 1 {
        kana1(k[0])
    } else if k.len() == 2 {
        kana2(k[0], k[1])
    } else if k.len() == 3 {
        kana3(k[0], k[1], k[2])
    } else if k.len() == 4 {
        kana4(k[0], k[1], k[2], k[3])
    } else {
        None
    }
}

fn kana_at(c: &[char], i: usize, n: usize) -> (r: Option<Vec<char>>)
    requires
        1 <= n <= 4,
        i + n <= c@.len(),
    ensures
        opt_chars(r) == kana_of(c@.subrange(i as int, i + n)),
{
    if n == 1 {
        kana1_exec(c[i])
    } else if n == 2 {
        kana2_exec(c[i], c[i + 1])
    } else if n == 3 {
        kana3_exec(c[i], c[i + 1], c[i + 2])
    } else {
        kana4_exec(c[i], c[i + 1], c[i + 2], c[i + 3])
    }
}

/// Length of the longest table syllable starting at `i` (at most 4), 0 when none.
pub open spec fn match_len(c: Seq<char>, i: int) -> int {
    if i + 4 <= c.len() && kana_of(c.subrange(i, i + 4)) is Some {
        4
    } else if i + 3 <= c.len() && kana_of(c.subrange(i, i + 3)) is Some {
        3
    } else if i + 2 <= c.len() && kana_of(c.subrange(i, i + 2)) is Some {
        2
    } else if i + 1 <= c.len() && kana_of(c.subrange(i, i + 1)) is Some {
        1
    } else {
        0
    }
}

pub open spec fn is_vowel(c: char) -> bool {
    c == 'a' || c == 'i' || c == 'u' || c == 'e' || c == 'o'
}

/// A doubled consonant (other than `n`) starts at `i`: it becomes `っ`.
pub open spec fn doubled_consonant(c: Seq<char>, i: int) -> bool {
    &&& i + 1 < c.len()
    &&& c[i] == c[i + 1]
    &&& is_ascii_alpha(c[i])
    &&& !is_vowel(c[i])
    &&& c[i] != 'n'
}

/// An `n` followed by a consonant (anything but a vowel or `y`) becomes `ん`.
pub open spec fn n_before_consonant(c: Seq<char>, i: int) -> bool {
    &&& c[i] == 'n'
    &&& i + 1 < c.len()
    &&& !is_vowel(c[i + 1])
    &&& c[i + 1] != 'y'
}

/// Hiragana for the (already lowercased) characters `c[i..]`.
pub open spec fn romaji_from(c: Seq<char>, i: int) -> Seq<char>
    decreases c.len() - i,
{
    if i < 0 || i >= c.len() {
        Seq::empty()
    } else if doubled_consonant(c, i) {
        seq!['っ'] + romaji_from(c, i + 1)
    } else if n_before_consonant(c, i) {
        seq!['ん'] + romaji_from(c, i + 1)
    } else {
        let m = match_len(c, i);
        if m > 0 {
            kana_of(c.subrange(i, i + m))->0 + romaji_from(c, i + m)
        } else if c[i] == 'n' && i + 1 == c.len() {
            seq!['ん'] + romaji_from(c, i + 1)
        } else {
            seq![c[i]] + romaji_from(c, i + 1)
        }
    }
}

pub open spec fn romaji_conv(c: Seq<char>) -> Seq<char> {
    romaji_from(c, 0)
}

/// Converts the syllable starting at `i`: the hiragana it yields and where
/// the next syllable starts.
fn convert_at(chars: &Vec<char>, i: usize) -> (r: (Vec<char>, usize))
    requires
        i < chars@.len(),
    ensures
        i < r.1 <= chars@.len(),
        romaji_from(chars@, i as int) == r.0@ + romaji_from(chars@, r.1 as int),
{
    let len = chars.len();
    let c = chars[i];
    let mut out: Vec<char> = Vec::new();
    if i + 1 < len && c == chars[i + 1] && (('a' <= c && c <= 'z') || ('A' <= c && c <= 'Z'))
        && c != 'a' && c != 'i' && c != 'u' && c != 'e' && c != 'o' && c != 'n' {
        out.push('っ');
        return (out, i + 1);
    }
    if c == 'n' && i + 1 < len {
        let next = chars[i + 1];
        if next != 'a' && next != 'i' && next != 'u' && next != 'e' && next != 'o' && next != 'y' {
            out.push('ん');
            return (out, i + 1);
        }
    }
    let avail = len - i;
    let mut try_len: usize = if avail < 4 {
        avail
    } else {
        4
    };
    let mut found: Option<Vec<char>> = None;
    while try_len > 0
        invariant_except_break
            found is None,
        invariant
            i < len == chars@.len(),
            try_len <= 4,
            i + try_len <= len,
            try_len < 4 ==> !(i + 4 <= len && kana_of(chars@.subrange(i as int, i + 4)) is Some),
            try_len < 3 ==> !(i + 3 <= len && kana_of(chars@.subrange(i as int, i + 3)) is Some),
            try_len < 2 ==> !(i + 2 <= len && kana_of(chars@.subrange(i as int, i + 2)) is Some),
            try_len < 1 ==> !(i + 1 <= len && kana_of(chars@.subrange(i as int, i + 1)) is Some),
        ensures
            found is Some ==> 1 <= try_len && opt_chars(found) == kana_of(
                chars@.subrange(i as int, i + try_len),
            ),
            found is None ==> try_len == 0,
        decreases try_len,
    {
        let k = kana_at(chars, i, try_len);
        if k.is_some() {
            found = k;
            break;
        }
        try_len -= 1;
    }
    match found {
        Some(kana) => {
            assert(match_len(chars@, i as int) == try_len);
            (kana, i + try_len)
        },
        None => {
            assert(match_len(chars@, i as int) == 0);
            if c == 'n' && i + 1 == len {
                out.push('ん');
            } else {
                out.push(c);
            }
            (out, i + 1)
        },
    }
}

/// The consonants of the basic syllable table: each goes with every vowel.
pub open spec fn is_row_consonant(c: char) -> bool {
    c == 'k' || c == 's' || c == 't' || c == 'n' || c == 'h' || c == 'm' || c == 'r' || c == 'g'
        || c == 'z' || c == 'd' || c == 'b' || c == 'p'
}

/// A consonant-and-vowel syllable of the basic table (the gojūon rows with
/// their voiced forms, and ya, yu, yo, wa, wo).
pub open spec fn basic_syllable(c: char, v: char) -> bool {
    ||| is_row_consonant(c) && is_vowel(v)
    ||| c == 'y' && (v == 'a' || v == 'u' || v == 'o')
    ||| c == 'w' && (v == 'a' || v == 'o')
}

proof fn lemma_syllable_at(s: Seq<char>, i: int)
    requires
        0 <= i,
        i + 2 == s.len(),
        basic_syllable(s[i], s[i + 1]),
    ensures
        kana2(s[i], s[i + 1]) is Some,
        romaji_from(s, i) == kana2(s[i], s[i + 1])->0,
{
    let k = kana2(s[i], s[i + 1])->0;
    assert(s.subrange(i, i + 2) =~= seq![s[i], s[i + 1]]);
    assert(!doubled_consonant(s, i));
    assert(!n_before_consonant(s, i));
    assert(match_len(s, i) == 2);
    assert(k + romaji_from(s, i + 2) =~= k);
}

proof fn lemma_vowel(v: char)
    requires
        is_vowel(v),
    ensures
        romaji_conv(seq![v]) == kana1(v)->0,
{
    let s = seq![v];
    assert(s.subrange(0, 1) =~= s);
    assert(match_len(s, 0) == 1);
    assert(kana1(v)->0 + romaji_from(s, 1) =~= kana1(v)->0);
}

proof fn lemma_two_letter_syllable(c: char, v: char)
    requires
        basic_syllable(c, v),
    ensures
        kana2(c, v) is Some,
        romaji_conv(seq![c, v]) == kana2(c, v)->0,
{
    lemma_syllable_at(seq![c, v], 0);
}

/// Each vowel and each syllable of the basic table is written with its kana:
/// a あ, ..., o お, ka か, ki き,
/// ..., he へ, ..., po ぽ, ya や, yu ゆ, yo よ, wa わ, wo を.
pub proof fn law_basic_syllables_give_their_kana()
    ensures
        romaji_conv(seq!['a']) == seq!['あ'],
        romaji_conv(seq!['i']) == seq!['い'],
        romaji_conv(seq!['u']) == seq!['う'],
        romaji_conv(seq!['e']) == seq!['え'],
        romaji_conv(seq!['o']) == seq!['お'],
        romaji_conv(seq!['k', 'a']) == seq!['か'],
        romaji_conv(seq!['k', 'i']) == seq!['き'],
        romaji_conv(seq!['k', 'u']) == seq!['く'],
        romaji_conv(seq!['k', 'e']) == seq!['け'],
        romaji_conv(seq!['k', 'o']) == seq!['こ'],
        romaji_conv(seq!['s', 'a']) == seq!['さ'],
        romaji_conv(seq!['s', 'i']) == seq!['し'],
        romaji_conv(seq!['s', 'u']) == seq!['す'],
        romaji_conv(seq!['s', 'e']) == seq!['せ'],
        romaji_conv(seq!['s', 'o']) == seq!['そ'],
        romaji_conv(seq!['t', 'a']) == seq!['た'],
        romaji_conv(seq!['t', 'i']) == seq!['ち'],
        romaji_conv(seq!['t', 'u']) == seq!['つ'],
        romaji_conv(seq!['t', 'e']) == seq!['て'],
        romaji_conv(seq!['t', 'o']) == seq!['と'],
        romaji_conv(seq!['n', 'a']) == seq!['な'],
        romaji_conv(seq!['n', 'i']) == seq!['に'],
        romaji_conv(seq!['n', 'u']) == seq!['ぬ'],
        romaji_conv(seq!['n', 'e']) == seq!['ね'],
        romaji_conv(seq!['n', 'o']) == seq!['の'],
        romaji_conv(seq!['h', 'a']) == seq!['は'],
        romaji_conv(seq!['h', 'i']) == seq!['ひ'],
        romaji_conv(seq!['h', 'u']) == seq!['ふ'],
        romaji_conv(seq!['h', 'e']) == seq!['へ'],
        romaji_conv(seq!['h', 'o']) == seq!['ほ'],
        romaji_conv(seq!['m', 'a']) == seq!['ま'],
        romaji_conv(seq!['m', 'i']) == seq!['み'],
        romaji_conv(seq!['m', 'u']) == seq!['む'],
        romaji_conv(seq!['m', 'e']) == seq!['め'],
        romaji_conv(seq!['m', 'o']) == seq!['も'],
        romaji_conv(seq!['r', 'a']) == seq!['ら'],
        romaji_conv(seq!['r', 'i']) == seq!['り'],
        romaji_conv(seq!['r', 'u']) == seq!['る'],
        romaji_conv(seq!['r', 'e']) == seq!['れ'],
        romaji_conv(seq!['r', 'o']) == seq!['ろ'],
        romaji_conv(seq!['g', 'a']) == seq!['が'],
        romaji_conv(seq!['g', 'i']) == seq!['ぎ'],
        romaji_conv(seq!['g', 'u']) == seq!['ぐ'],
        romaji_conv(seq!['g', 'e']) == seq!['げ'],
        romaji_conv(seq!['g', 'o']) == seq!['ご'],
        romaji_conv(seq!['z', 'a']) == seq!['ざ'],
        romaji_conv(seq!['z', 'i']) == seq!['じ'],
        romaji_conv(seq!['z', 'u']) == seq!['ず'],
        romaji_conv(seq!['z', 'e']) == seq!['ぜ'],
        romaji_conv(seq!['z', 'o']) == seq!['ぞ'],
        romaji_conv(seq!['d', 'a']) == seq!['だ'],
        romaji_conv(seq!['d', 'i']) == seq!['ぢ'],
        romaji_conv(seq!['d', 'u']) == seq!['づ'],
        romaji_conv(seq!['d', 'e']) == seq!['で'],
        romaji_conv(seq!['d', 'o']) == seq!['ど'],
        romaji_conv(seq!['b', 'a']) == seq!['ば'],
        romaji_conv(seq!['b', 'i']) == seq!['び'],
        romaji_conv(seq!['b', 'u']) == seq!['ぶ'],
        romaji_conv(seq!['b', 'e']) == seq!['べ'],
        romaji_conv(seq!['b', 'o']) == seq!['ぼ'],
        romaji_conv(seq!['p', 'a']) == seq!['ぱ'],
        romaji_conv(seq!['p', 'i']) == seq!['ぴ'],
        romaji_conv(seq!['p', 'u']) == seq!['ぷ'],
        romaji_conv(seq!['p', 'e']) == seq!['ぺ'],
        romaji_conv(seq!['p', 'o']) == seq!['ぽ'],
        romaji_conv(seq!['y', 'a']) == seq!['や'],
        romaji_conv(seq!['y', 'u']) == seq!['ゆ'],
        romaji_conv(seq!['y', 'o']) == seq!['よ'],
        romaji_conv(seq!['w', 'a']) == seq!['わ'],
        romaji_conv(seq!['w', 'o']) == seq!['を'],
{
    lemma_vowel('a');
    lemma_vowel('i');
    lemma_vowel('u');
    lemma_vowel('e');
    lemma_vowel('o');
    lemma_two_letter_syllable('k', 'a');
    lemma_two_letter_syllable('k', 'i');
    lemma_two_letter_syllable('k', 'u');
    lemma_two_letter_syllable('k', 'e');
    lemma_two_letter_syllable('k', 'o');
    lemma_two_letter_syllable('s', 'a');
    lemma_two_letter_syllable('s', 'i');
    lemma_two_letter_syllable('s', 'u');
    lemma_two_letter_syllable('s', 'e');
    lemma_two_letter_syllable('s', 'o');
    lemma_two_letter_syllable('t', 'a');
    lemma_two_letter_syllable('t', 'i');
    lemma_two_letter_syllable('t', 'u');
    lemma_two_letter_syllable('t', 'e');
    lemma_two_letter_syllable('t', 'o');
    lemma_two_letter_syllable('n', 'a');
    lemma_two_letter_syllable('n', 'i');
    lemma_two_letter_syllable('n', 'u');
    lemma_two_letter_syllable('n', 'e');
    lemma_two_letter_syllable('n', 'o');
    lemma_two_letter_syllable('h', 'a');
    lemma_two_letter_syllable('h', 'i');
    lemma_two_letter_syllable('h', 'u');
    lemma_two_letter_syllable('h', 'e');
    lemma_two_letter_syllable('h', 'o');
    lemma_two_letter_syllable('m', 'a');
    lemma_two_letter_syllable('m', 'i');
    lemma_two_letter_syllable('m', 'u');
    lemma_two_letter_syllable('m', 'e');
    lemma_two_letter_syllable('m', 'o');
    lemma_two_letter_syllable('r', 'a');
    lemma_two_letter_syllable('r', 'i');
    lemma_two_letter_syllable('r', 'u');
    lemma_two_letter_syllable('r', 'e');
    lemma_two_letter_syllable('r', 'o');
    lemma_two_letter_syllable('g', 'a');
    lemma_two_letter_syllable('g', 'i');
    lemma_two_letter_syllable('g', 'u');
    lemma_two_letter_syllable('g', 'e');
    lemma_two_letter_syllable('g', 'o');
    lemma_two_letter_syllable('z', 'a');
    lemma_two_letter_syllable('z', 'i');
    lemma_two_letter_syllable('z', 'u');
    lemma_two_letter_syllable('z', 'e');
    lemma_two_letter_syllable('z', 'o');
    lemma_two_letter_syllable('d', 'a');
    lemma_two_letter_syllable('d', 'i');
    lemma_two_letter_syllable('d', 'u');
    lemma_two_letter_syllable('d', 'e');
    lemma_two_letter_syllable('d', 'o');
    lemma_two_letter_syllable('b', 'a');
    lemma_two_letter_syllable('b', 'i');
    lemma_two_letter_syllable('b', 'u');
    lemma_two_letter_syllable('b', 'e');
    lemma_two_letter_syllable('b', 'o');
    lemma_two_letter_syllable('p', 'a');
    lemma_two_letter_syllable('p', 'i');
    lemma_two_letter_syllable('p', 'u');
    lemma_two_letter_syllable('p', 'e');
    lemma_two_letter_syllable('p', 'o');
    lemma_two_letter_syllable('y', 'a');
    lemma_two_letter_syllable('y', 'u');
    lemma_two_letter_syllable('y', 'o');
    lemma_two_letter_syllable('w', 'a');
    lemma_two_letter_syllable('w', 'o');
}

proof fn lemma_three_letter_syllable(a: char, b: char, c: char)
    requires
        kana3(a, b, c) is Some,
    ensures
        romaji_conv(seq![a, b, c]) == kana3(a, b, c)->0,
{
    let s = seq![a, b, c];
    assert(s.subrange(0, 3) =~= s);
    assert(!doubled_consonant(s, 0));
    assert(!n_before_consonant(s, 0));
    assert(match_len(s, 0) == 3);
    assert(kana3(a, b, c)->0 + romaji_from(s, 3) =~= kana3(a, b, c)->0);
}

/// Each syllable of three or four letters is written with its kana: the
/// palatalized syllables (kya きゃ, ..., dyo ぢょ), sha しゃ, shi し, chi ち,
/// tsu つ and the rest, and xtsu っ.
pub proof fn law_long_syllables_give_their_kana()
    ensures
        romaji_conv(seq!['x', 't', 's', 'u']) == seq!['っ'],
        romaji_conv(seq!['s', 'h', 'a']) == seq!['し', 'ゃ'],
        romaji_conv(seq!['s', 'h', 'i']) == seq!['し'],
        romaji_conv(seq!['s', 'h', 'u']) == seq!['し', 'ゅ'],
        romaji_conv(seq!['s', 'h', 'o']) == seq!['し', 'ょ'],
        romaji_conv(seq!['c', 'h', 'i']) == seq!['ち'],
        romaji_conv(seq!['t', 's', 'u']) == seq!['つ'],
        romaji_conv(seq!['c', 'h', 'a']) == seq!['ち', 'ゃ'],
        romaji_conv(seq!['c', 'h', 'u']) == seq!['ち', 'ゅ'],
        romaji_conv(seq!['c', 'h', 'o']) == seq!['ち', 'ょ'],
        romaji_conv(seq!['t', 'y', 'a']) == seq!['ち', 'ゃ'],
        romaji_conv(seq!['t', 'y', 'i']) == seq!['ち', 'ぃ'],
        romaji_conv(seq!['t', 'y', 'u']) == seq!['ち', 'ゅ'],
        romaji_conv(seq!['t', 'y', 'e']) == seq!['ち', 'ぇ'],
        romaji_conv(seq!['t', 'y', 'o']) == seq!['ち', 'ょ'],
        romaji_conv(seq!['n', 'y', 'a']) == seq!['に', 'ゃ'],
        romaji_conv(seq!['n', 'y', 'i']) == seq!['に', 'ぃ'],
        romaji_conv(seq!['n', 'y', 'u']) == seq!['に', 'ゅ'],
        romaji_conv(seq!['n', 'y', 'e']) == seq!['に', 'ぇ'],
        romaji_conv(seq!['n', 'y', 'o']) == seq!['に', 'ょ'],
        romaji_conv(seq!['h', 'y', 'a']) == seq!['ひ', 'ゃ'],
        romaji_conv(seq!['h', 'y', 'i']) == seq!['ひ', 'ぃ'],
        romaji_conv(seq!['h', 'y', 'u']) == seq!['ひ', 'ゅ'],
        romaji_conv(seq!['h', 'y', 'e']) == seq!['ひ', 'ぇ'],
        romaji_conv(seq!['h', 'y', 'o']) == seq!['ひ', 'ょ'],
        romaji_conv(seq!['m', 'y', 'a']) == seq!['み', 'ゃ'],
        romaji_conv(seq!['m', 'y', 'i']) == seq!['み', 'ぃ'],
        romaji_conv(seq!['m', 'y', 'u']) == seq!['み', 'ゅ'],
        romaji_conv(seq!['m', 'y', 'e']) == seq!['み', 'ぇ'],
        romaji_conv(seq!['m', 'y', 'o']) == seq!['み', 'ょ'],
        romaji_conv(seq!['r', 'y', 'a']) == seq!['り', 'ゃ'],
        romaji_conv(seq!['r', 'y', 'i']) == seq!['り', 'ぃ'],
        romaji_conv(seq!['r', 'y', 'u']) == seq!['り', 'ゅ'],
        romaji_conv(seq!['r', 'y', 'e']) == seq!['り', 'ぇ'],
        romaji_conv(seq!['r', 'y', 'o']) == seq!['り', 'ょ'],
        romaji_conv(seq!['g', 'y', 'a']) == seq!['ぎ', 'ゃ'],
        romaji_conv(seq!['g', 'y', 'i']) == seq!['ぎ', 'ぃ'],
        romaji_conv(seq!['g', 'y', 'u']) == seq!['ぎ', 'ゅ'],
        romaji_conv(seq!['g', 'y', 'e']) == seq!['ぎ', 'ぇ'],
        romaji_conv(seq!['g', 'y', 'o']) == seq!['ぎ', 'ょ'],
        romaji_conv(seq!['b', 'y', 'a']) == seq!['び', 'ゃ'],
        romaji_conv(seq!['b', 'y', 'i']) == seq!['び', 'ぃ'],
        romaji_conv(seq!['b', 'y', 'u']) == seq!['び', 'ゅ'],
        romaji_conv(seq!['b', 'y', 'e']) == seq!['び', 'ぇ'],
        romaji_conv(seq!['b', 'y', 'o']) == seq!['び', 'ょ'],
        romaji_conv(seq!['p', 'y', 'a']) == seq!['ぴ', 'ゃ'],
        romaji_conv(seq!['p', 'y', 'i']) == seq!['ぴ', 'ぃ'],
        romaji_conv(seq!['p', 'y', 'u']) == seq!['ぴ', 'ゅ'],
        romaji_conv(seq!['p', 'y', 'e']) == seq!['ぴ', 'ぇ'],
        romaji_conv(seq!['p', 'y', 'o']) == seq!['ぴ', 'ょ'],
        romaji_conv(seq!['k', 'y', 'a']) == seq!['き', 'ゃ'],
        romaji_conv(seq!['k', 'y', 'i']) == seq!['き', 'ぃ'],
        romaji_conv(seq!['k', 'y', 'u']) == seq!['き', 'ゅ'],
        romaji_conv(seq!['k', 'y', 'e']) == seq!['き', 'ぇ'],
        romaji_conv(seq!['k', 'y', 'o']) == seq!['き', 'ょ'],
        romaji_conv(seq!['j', 'y', 'a']) == seq!['じ', 'ゃ'],
        romaji_conv(seq!['j', 'y', 'i']) == seq!['じ', 'ぃ'],
        romaji_conv(seq!['j', 'y', 'u']) == seq!['じ', 'ゅ'],
        romaji_conv(seq!['j', 'y', 'e']) == seq!['じ', 'ぇ'],
        romaji_conv(seq!['j', 'y', 'o']) == seq!['じ', 'ょ'],
        romaji_conv(seq!['d', 'y', 'a']) == seq!['ぢ', 'ゃ'],
        romaji_conv(seq!['d', 'y', 'i']) == seq!['ぢ', 'ぃ'],
        romaji_conv(seq!['d', 'y', 'u']) == seq!['ぢ', 'ゅ'],
        romaji_conv(seq!['d', 'y', 'e']) == seq!['ぢ', 'ぇ'],
        romaji_conv(seq!['d', 'y', 'o']) == seq!['ぢ', 'ょ'],
{
    let x = seq!['x', 't', 's', 'u'];
    assert(x.subrange(0, 4) =~= x);
    assert(!doubled_consonant(x, 0));
    assert(!n_before_consonant(x, 0));
    assert(match_len(x, 0) == 4);
    assert(seq!['っ'] + romaji_from(x, 4) =~= seq!['っ']);
    lemma_three_letter_syllable('s', 'h', 'a');
    lemma_three_letter_syllable('s', 'h', 'i');
    lemma_three_letter_syllable('s', 'h', 'u');
    lemma_three_letter_syllable('s', 'h', 'o');
    lemma_three_letter_syllable('c', 'h', 'i');
    lemma_three_letter_syllable('t', 's', 'u');
    lemma_three_letter_syllable('c', 'h', 'a');
    lemma_three_letter_syllable('c', 'h', 'u');
    lemma_three_letter_syllable('c', 'h', 'o');
    lemma_three_letter_syllable('t', 'y', 'a');
    lemma_three_letter_syllable('t', 'y', 'i');
    lemma_three_letter_syllable('t', 'y', 'u');
    lemma_three_letter_syllable('t', 'y', 'e');
    lemma_three_letter_syllable('t', 'y', 'o');
    lemma_three_letter_syllable('n', 'y', 'a');
    lemma_three_letter_syllable('n', 'y', 'i');
    lemma_three_letter_syllable('n', 'y', 'u');
    lemma_three_letter_syllable('n', 'y', 'e');
    lemma_three_letter_syllable('n', 'y', 'o');
    lemma_three_letter_syllable('h', 'y', 'a');
    lemma_three_letter_syllable('h', 'y', 'i');
    lemma_three_letter_syllable('h', 'y', 'u');
    lemma_three_letter_syllable('h', 'y', 'e');
    lemma_three_letter_syllable('h', 'y', 'o');
    lemma_three_letter_syllable('m', 'y', 'a');
    lemma_three_letter_syllable('m', 'y', 'i');
    lemma_three_letter_syllable('m', 'y', 'u');
    lemma_three_letter_syllable('m', 'y', 'e');
    lemma_three_letter_syllable('m', 'y', 'o');
    lemma_three_letter_syllable('r', 'y', 'a');
    lemma_three_letter_syllable('r', 'y', 'i');
    lemma_three_letter_syllable('r', 'y', 'u');
    lemma_three_letter_syllable('r', 'y', 'e');
    lemma_three_letter_syllable('r', 'y', 'o');
    lemma_three_letter_syllable('g', 'y', 'a');
    lemma_three_letter_syllable('g', 'y', 'i');
    lemma_three_letter_syllable('g', 'y', 'u');
    lemma_three_letter_syllable('g', 'y', 'e');
    lemma_three_letter_syllable('g', 'y', 'o');
    lemma_three_letter_syllable('b', 'y', 'a');
    lemma_three_letter_syllable('b', 'y', 'i');
    lemma_three_letter_syllable('b', 'y', 'u');
    lemma_three_letter_syllable('b', 'y', 'e');
    lemma_three_letter_syllable('b', 'y', 'o');
    lemma_three_letter_syllable('p', 'y', 'a');
    lemma_three_letter_syllable('p', 'y', 'i');
    lemma_three_letter_syllable('p', 'y', 'u');
    lemma_three_letter_syllable('p', 'y', 'e');
    lemma_three_letter_syllable('p', 'y', 'o');
    lemma_three_letter_syllable('k', 'y', 'a');
    lemma_three_letter_syllable('k', 'y', 'i');
    lemma_three_letter_syllable('k', 'y', 'u');
    lemma_three_letter_syllable('k', 'y', 'e');
    lemma_three_letter_syllable('k', 'y', 'o');
    lemma_three_letter_syllable('j', 'y', 'a');
    lemma_three_letter_syllable('j', 'y', 'i');
    lemma_three_letter_syllable('j', 'y', 'u');
    lemma_three_letter_syllable('j', 'y', 'e');
    lemma_three_letter_syllable('j', 'y', 'o');
    lemma_three_letter_syllable('d', 'y', 'a');
    lemma_three_letter_syllable('d', 'y', 'i');
    lemma_three_letter_syllable('d', 'y', 'u');
    lemma_three_letter_syllable('d', 'y', 'e');
    lemma_three_letter_syllable('d', 'y', 'o');
}

proof fn lemma_two_letter_entry(c: char, v: char)
    requires
        kana2(c, v) is Some,
    ensures
        romaji_conv(seq![c, v]) == kana2(c, v)->0,
{
    let s = seq![c, v];
    assert(s.subrange(0, 2) =~= s);
    assert(!doubled_consonant(s, 0));
    assert(!n_before_consonant(s, 0));
    assert(match_len(s, 0) == 2);
    assert(kana2(c, v)->0 + romaji_from(s, 2) =~= kana2(c, v)->0);
}

/// The other two-letter syllables are written with their kana: ja じゃ, ...,
/// fa ふぁ, ..., va ゔぁ, ..., yi い, ye いぇ, wi ゐ, wu う, we ゑ.
pub proof fn law_other_two_letter_syllables_give_their_kana()
    ensures
        romaji_conv(seq!['y', 'i']) == seq!['い'],
        romaji_conv(seq!['y', 'e']) == seq!['い', 'ぇ'],
        romaji_conv(seq!['w', 'i']) == seq!['ゐ'],
        romaji_conv(seq!['w', 'u']) == seq!['う'],
        romaji_conv(seq!['w', 'e']) == seq!['ゑ'],
        romaji_conv(seq!['j', 'a']) == seq!['じ', 'ゃ'],
        romaji_conv(seq!['j', 'i']) == seq!['じ'],
        romaji_conv(seq!['j', 'u']) == seq!['じ', 'ゅ'],
        romaji_conv(seq!['j', 'e']) == seq!['じ', 'ぇ'],
        romaji_conv(seq!['j', 'o']) == seq!['じ', 'ょ'],
        romaji_conv(seq!['f', 'a']) == seq!['ふ', 'ぁ'],
        romaji_conv(seq!['f', 'i']) == seq!['ふ', 'ぃ'],
        romaji_conv(seq!['f', 'u']) == seq!['ふ'],
        romaji_conv(seq!['f', 'e']) == seq!['ふ', 'ぇ'],
        romaji_conv(seq!['f', 'o']) == seq!['ふ', 'ぉ'],
        romaji_conv(seq!['v', 'a']) == seq!['ゔ', 'ぁ'],
        romaji_conv(seq!['v', 'i']) == seq!['ゔ', 'ぃ'],
        romaji_conv(seq!['v', 'u']) == seq!['ゔ'],
        romaji_conv(seq!['v', 'e']) == seq!['ゔ', 'ぇ'],
        romaji_conv(seq!['v', 'o']) == seq!['ゔ', 'ぉ'],
{
    lemma_two_letter_entry('y', 'i');
    lemma_two_letter_entry('y', 'e');
    lemma_two_letter_entry('w', 'i');
    lemma_two_letter_entry('w', 'u');
    lemma_two_letter_entry('w', 'e');
    lemma_two_letter_entry('j', 'a');
    lemma_two_letter_entry('j', 'i');
    lemma_two_letter_entry('j', 'u');
    lemma_two_letter_entry('j', 'e');
    lemma_two_letter_entry('j', 'o');
    lemma_two_letter_entry('f', 'a');
    lemma_two_letter_entry('f', 'i');
    lemma_two_letter_entry('f', 'u');
    lemma_two_letter_entry('f', 'e');
    lemma_two_letter_entry('f', 'o');
    lemma_two_letter_entry('v', 'a');
    lemma_two_letter_entry('v', 'i');
    lemma_two_letter_entry('v', 'u');
    lemma_two_letter_entry('v', 'e');
    lemma_two_letter_entry('v', 'o');
}

/// No two syllables of the basic table are written with the same kana.
pub proof fn law_basic_syllables_differ(c1: char, v1: char, c2: char, v2: char)
    requires
        basic_syllable(c1, v1),
        basic_syllable(c2, v2),
        romaji_conv(seq![c1, v1]) == romaji_conv(seq![c2, v2]),
    ensures
        c1 == c2 && v1 == v2,
{
    lemma_two_letter_syllable(c1, v1);
    lemma_two_letter_syllable(c2, v2);
    assert(kana2(c1, v1)->0[0] == kana2(c2, v2)->0[0]);
}

/// A doubled consonant other than `n` is a small `っ` before the syllable
/// (`kka` is っか).
pub proof fn law_doubled_consonant_is_small_tsu(c: char, v: char)
    requires
        basic_syllable(c, v),
        c != 'n',
    ensures
        romaji_conv(seq![c, c, v]) == seq!['っ'] + romaji_conv(seq![c, v]),
{
    let s = seq![c, c, v];
    lemma_two_letter_syllable(c, v);
    assert(doubled_consonant(s, 0));
    lemma_syllable_at(s, 1);
}

/// An `n` before the consonant of another syllable (not `y`, not `n`) is
/// `ん` (`nka` is んか).
pub proof fn law_n_before_consonant_is_n(c: char, v: char)
    requires
        basic_syllable(c, v),
        c != 'n',
        c != 'y',
    ensures
        romaji_conv(seq!['n', c, v]) == seq!['ん'] + romaji_conv(seq![c, v]),
{
    let s = seq!['n', c, v];
    lemma_two_letter_syllable(c, v);
    assert(!doubled_consonant(s, 0));
    assert(n_before_consonant(s, 0));
    lemma_syllable_at(s, 1);
}

/// A final `n` after a syllable is `ん` (`kan` is かん).
pub proof fn law_final_n_is_n(c: char, v: char)
    requires
        basic_syllable(c, v),
    ensures
        romaji_conv(seq![c, v, 'n']) == romaji_conv(seq![c, v]) + seq!['ん'],
{
    let s = seq![c, v, 'n'];
    lemma_two_letter_syllable(c, v);
    let k = kana2(c, v)->0;
    assert(!doubled_consonant(s, 0));
    assert(!n_before_consonant(s, 0));
    assert(s.subrange(0, 3) =~= seq![c, v, 'n']);
    assert(s.subrange(0, 2) =~= seq![c, v]);
    assert(kana3(c, v, 'n') is None);
    assert(match_len(s, 0) == 2);
    assert(s.subrange(2, 3) =~= seq!['n']);
    assert(match_len(s, 2) == 0);
    assert(!doubled_consonant(s, 2));
    assert(!n_before_consonant(s, 2));
    assert(romaji_from(s, 3) == Seq::<char>::empty());
    assert(romaji_from(s, 2) == seq!['ん'] + romaji_from(s, 3));
    assert(romaji_from(s, 2) =~= seq!['ん']);
}

/// Hiragana for an already lowercased romaji string.
pub fn romaji_lower_to_hiragana(lower: &str) -> (r: String)
    ensures
        r@ == romaji_conv(lower@),
{
    let chars = to_chars(lower);
    let len = chars.len();
    let mut result = String::new();
    let mut i: usize = 0;
    while i < len
        invariant
            len == chars@.len(),
            i <= len,
            romaji_conv(chars@) == result@ + romaji_from(chars@, i as int),
        decreases len - i,
    {
        let (kana, next) = convert_at(&chars, i);
        push_chars(&mut result, &kana);
        i = next;
    }
    result
}

/// Convert romaji (latin alphabet) to hiragana using standard Wapuro romanization.
/// Handles common patterns: consonant+vowel pairs, double consonants (っ), n before
/// consonants (ん), long vowels, and special digraphs (sh, ch, ts, etc.).
pub fn romaji_to_hiragana(input: &str) -> (r: String)
    ensures
        r@ == romaji_conv(lowercase_of(input@)),
        all_ascii(input@) ==> r@ == romaji_conv(ascii_lower(input@)),
{
    let lower = to_lowercase(input);
    romaji_lower_to_hiragana(lower.as_str())
}

} // verus!

verus! {

proof fn lemma_kana_needs_letter(k: Seq<char>)
    requires
        k.len() > 0,
        !is_ascii_alpha(k[0]),
    ensures
        kana_of(k) is None,
{
}

proof fn lemma_romaji_from_passthrough(c: Seq<char>, i: int)
    requires
        0 <= i <= c.len(),
        forall|j: int| 0 <= j < c.len() ==> !is_ascii_alpha(#[trigger] c[j]),
    ensures
        romaji_from(c, i) == c.subrange(i, c.len() as int),
    decreases c.len() - i,
{
    if i < c.len() {
        lemma_romaji_from_passthrough(c, i + 1);
        assert(!is_ascii_alpha(c[i]));
        if i + 4 <= c.len() {
            lemma_kana_needs_letter(c.subrange(i, i + 4));
        }
        if i + 3 <= c.len() {
            lemma_kana_needs_letter(c.subrange(i, i + 3));
        }
        if i + 2 <= c.len() {
            lemma_kana_needs_letter(c.subrange(i, i + 2));
        }
        lemma_kana_needs_letter(c.subrange(i, i + 1));
        assert(match_len(c, i) == 0);
        assert(c.subrange(i, c.len() as int) == seq![c[i]] + c.subrange(i + 1, c.len() as int));
    } else {
        assert(c.subrange(i, c.len() as int) == Seq::<char>::empty());
    }
}

/// Characters other than ASCII letters (punctuation, kana, kanji) pass through
/// the romaji conversion unchanged.
pub proof fn law_romaji_passes_through_non_letters(c: Seq<char>)
    requires
        forall|j: int| 0 <= j < c.len() ==> !is_ascii_alpha(#[trigger] c[j]),
    ensures
        romaji_conv(c) == c,
{
    lemma_romaji_from_passthrough(c, 0);
    assert(c.subrange(0, c.len() as int) == c);
}

/// For ASCII input the conversion ignores case: the lower-cased input is
/// ASCII again and lower-casing it once more changes nothing, so converting
/// "Taberu" gives what converting "taberu" gives.
pub proof fn law_romaji_ignores_ascii_case(s: Seq<char>)
    requires
        all_ascii(s),
    ensures
        all_ascii(ascii_lower(s)),
        ascii_lower(ascii_lower(s)) == ascii_lower(s),
        romaji_conv(ascii_lower(ascii_lower(s))) == romaji_conv(ascii_lower(s)),
{
    let l = ascii_lower(s);
    assert forall|i: int| 0 <= i < l.len() implies is_ascii_char(#[trigger] l[i]) by {
        let c = s[i];
        assert(is_ascii_char(c));
        if 'A' <= c && c <= 'Z' {
            assert((c as u32) + 32 < 128);
        }
    }
    assert forall|i: int| 0 <= i < l.len() implies #[trigger] ascii_lower(l)[i] == l[i] by {
        let c = s[i];
        if 'A' <= c && c <= 'Z' {
            let d = ((c as u32) + 32) as char;
            assert(d as u32 == (c as u32) + 32);
            assert(!('A' <= d && d <= 'Z'));
        }
    }
    assert(ascii_lower(l) =~= l);
}

/// No character of `v` is ASCII.
pub open spec fn no_ascii(v: Seq<char>) -> bool {
    forall|i: int| 0 <= i < v.len() ==> !is_ascii_char(#[trigger] v[i])
}

proof fn lemma_kana_no_ascii(k: Seq<char>)
    ensures
        kana_of(k) matches Some(v) ==> no_ascii(v),
{
    if k.len() == 2 {
        let v = kana2(k[0], k[1]);
        if v is Some {
            assert(no_ascii(v->0));
        }
    } else if k.len() == 3 {
        let v = kana3(k[0], k[1], k[2]);
        if v is Some {
            assert(no_ascii(v->0));
        }
    }
}

/// Every character of `out` is either not ASCII or a character of `c` that
/// is not a lower-case vowel.
pub open spec fn kana_or_kept(out: Seq<char>, c: Seq<char>) -> bool {
    forall|x: int| 0 <= x < out.len() ==> !is_ascii_char(#[trigger] out[x]) || (c.contains(out[x]) && !is_vowel(out[x]))
}

proof fn lemma_kana_or_kept_add(a: Seq<char>, b: Seq<char>, c: Seq<char>)
    requires
        kana_or_kept(a, c),
        kana_or_kept(b, c),
    ensures
        kana_or_kept(a + b, c),
{
    assert forall|x: int| 0 <= x < (a + b).len() implies !is_ascii_char(#[trigger] (a + b)[x]) || (c.contains(
        (a + b)[x],
    ) && !is_vowel((a + b)[x])) by {
        if x < a.len() {
            assert((a + b)[x] == a[x]);
        } else {
            assert((a + b)[x] == b[x - a.len()]);
        }
    }
}

proof fn lemma_romaji_from_kana_or_kept(c: Seq<char>, i: int)
    requires
        0 <= i,
    ensures
        kana_or_kept(romaji_from(c, i), c),
    decreases c.len() - i,
{
    if i < c.len() {
        if doubled_consonant(c, i) || n_before_consonant(c, i) {
            lemma_romaji_from_kana_or_kept(c, i + 1);
            let head = if doubled_consonant(c, i) { seq!['っ'] } else { seq!['ん'] };
            assert(('っ' as u32) >= 128 && ('ん' as u32) >= 128);
            assert(kana_or_kept(head, c));
            lemma_kana_or_kept_add(head, romaji_from(c, i + 1), c);
        } else {
            let m = match_len(c, i);
            if m > 0 {
                lemma_romaji_from_kana_or_kept(c, i + m);
                lemma_kana_no_ascii(c.subrange(i, i + m));
                lemma_kana_or_kept_add(kana_of(c.subrange(i, i + m))->0, romaji_from(c, i + m), c);
            } else {
                lemma_romaji_from_kana_or_kept(c, i + 1);
                let head = if c[i] == 'n' && i + 1 == c.len() { seq!['ん'] } else { seq![c[i]] };
                assert(('ん' as u32) >= 128);
                if is_vowel(c[i]) {
                    let k = c.subrange(i, i + 1);
                    assert(k.len() == 1 && k[0] == c[i]);
                    assert(kana_of(k) is Some);
                    assert(false);
                }
                assert(c.contains(c[i]));
                assert(kana_or_kept(head, c));
                lemma_kana_or_kept_add(head, romaji_from(c, i + 1), c);
            }
        }
    }
}

/// The conversion leaves no lower-case ASCII vowel: every vowel is taken up
/// by a syllable of the table.
pub proof fn law_romaji_leaves_no_vowel(c: Seq<char>)
    ensures
        forall|x: int| 0 <= x < romaji_conv(c).len() ==> !is_vowel(#[trigger] romaji_conv(c)[x]),
{
    lemma_romaji_from_kana_or_kept(c, 0);
    assert forall|x: int| 0 <= x < romaji_conv(c).len() implies !is_vowel(#[trigger] romaji_conv(c)[x]) by {
        let ch = romaji_conv(c)[x];
        if is_vowel(ch) {
            assert(is_ascii_char(ch));
        }
    }
}

/// Converting ASCII input (which is lower-cased first) leaves no ASCII vowel
/// of either case and no upper-case ASCII letter.
pub proof fn law_romaji_of_ascii_has_no_vowel_or_capital(s: Seq<char>)
    requires
        all_ascii(s),
    ensures
        forall|x: int|
            0 <= x < romaji_conv(ascii_lower(s)).len() ==> {
                let ch = #[trigger] romaji_conv(ascii_lower(s))[x];
                !is_vowel(ch) && !('A' <= ch && ch <= 'Z')
            },
{
    let l = ascii_lower(s);
    law_romaji_leaves_no_vowel(l);
    lemma_romaji_from_kana_or_kept(l, 0);
    assert forall|x: int| 0 <= x < romaji_conv(l).len() implies {
        let ch = #[trigger] romaji_conv(l)[x];
        !is_vowel(ch) && !('A' <= ch && ch <= 'Z')
    } by {
        let ch = romaji_conv(l)[x];
        assert(!is_vowel(ch));
        if 'A' <= ch && ch <= 'Z' {
            assert(is_ascii_char(ch));
            assert(l.contains(ch));
            let j = choose|j: int| 0 <= j < l.len() && l[j] == ch;
            let c0 = s[j];
            if 'A' <= c0 && c0 <= 'Z' {
                assert((c0 as u32) + 32 >= 97);
                assert(l[j] == ((c0 as u32) + 32) as char);
            }
        }
    }
}

} // verus!
