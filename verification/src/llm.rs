//! Sentence analysis by a language model: the request pieces (user message,
//! endpoint URL), the cache key of a request, and the clean-up of a reply
//! before it is read as JSON.
use vstd::prelude::*;
use crate::text::{
    trim, starts_with, ends_with, occurs_at, to_chars, string_of_range, push_str, trim_str,
    trim_bounds, chars_occur_at, trim_end_slashes,
};

verus! {

/// A single component in the sentence breakdown.
#[derive(Debug, Clone)]
pub struct ComponentBreakdown {
    pub japanese: String,
    pub romaji: String,
    pub meaning: String,
}

/// Full structured analysis of a Japanese sentence from the model.
#[derive(Debug, Clone)]
pub struct SentenceAnalysis {
    pub translation: String,
    pub component_breakdown: Vec<ComponentBreakdown>,
    pub explanation: String,
}

/// Result of a model call, including the parsed analysis and metadata.
#[derive(Debug, Clone)]
pub struct LlmResponse {
    pub analysis: SentenceAnalysis,
    pub model: String,
    pub tokens_used: i64,
    pub cached: bool,
    /// The raw JSON response text (stored in cache).
    pub raw_json: String,
}

// ─── Cache key ──────────────────────────────────────────────────────

/// The SHA-256 digest of the UTF-8 encoding of `data`.
pub uninterp spec fn sha256_digest(data: Seq<char>) -> Seq<u8>;

/// Calls `sha2::Sha256::digest` on the UTF-8 bytes of `data`. The contract
/// claims that the digest is a function of the text alone and is 32 bytes
/// long; the digest itself is not stated.
#[verifier::external_body]
fn sha256(data: &str) -> (r: Vec<u8>)
    ensures
        r@ == sha256_digest(data@),
        r@.len() == 32,
{
    <sha2::Sha256 as sha2::Digest>::digest(data.as_bytes()).to_vec()
}

/// The lowercase hexadecimal digit of `n` (0..16).
pub open spec fn hex_digit(n: int) -> char {
    if n < 10 {
        (48 + n) as char
    } else {
        (87 + n) as char
    }
}

/// Two lowercase hexadecimal digits per byte, most significant first.
pub open spec fn hex_of(bytes: Seq<u8>) -> Seq<char>
    decreases bytes.len(),
{
    if bytes.len() == 0 {
        seq![]
    } else {
        hex_of(bytes.drop_last()) + seq![
            hex_digit(bytes.last() as int / 16),
            hex_digit(bytes.last() as int % 16),
        ]
    }
}

fn hex_char(n: u8) -> (c: char)
    requires
        n < 16,
    ensures
        c == hex_digit(n as int),
{
    if n < 10 {
        (48u8 + n) as char
    } else {
        (87u8 + n) as char
    }
}

/// Lowercase hexadecimal text of a byte string, two digits per byte.
pub fn hex_lower(bytes: &[u8]) -> (r: String)
    ensures
        r@ == hex_of(bytes@),
        r@.len() == 2 * bytes@.len(),
{
    let mut s = String::new();
    let mut i: usize = 0;
    while i < bytes.len()
        invariant
            i <= bytes@.len(),
            s@ == hex_of(bytes@.take(i as int)),
            s@.len() == 2 * i,
        decreases bytes.len() - i,
    {
        let b = bytes[i];
        s.push(hex_char(b / 16));
        s.push(hex_char(b % 16));
        i += 1;
        assert(bytes@.take(i as int).drop_last() == bytes@.take(i - 1));
    }
    assert(bytes@.take(bytes@.len() as int) == bytes@);
    s
}

/// The text that identifies an analysis request: the kind of request, the
/// model and the sentence, separated by `|`.
pub open spec fn hash_input(sentence: Seq<char>, model: Seq<char>) -> Seq<char> {
    "sentence_analysis|"@ + model + "|"@ + sentence
}

/// The cache key of an analysis request: the SHA-256 hash of the request,
/// as lowercase hexadecimal. Different models get separate cache entries.
pub fn compute_hash(sentence: &str, model: &str) -> (r: String)
    ensures
        r@ == hex_of(sha256_digest(hash_input(sentence@, model@))),
        r@.len() == 64,
{
    let mut input = String::from_str("sentence_analysis|");
    push_str(&mut input, model);
    push_str(&mut input, "|");
    push_str(&mut input, sentence);
    let digest = sha256(input.as_str());
    hex_lower(digest.as_slice())
}

// ─── Request pieces ─────────────────────────────────────────────────

/// Each context sentence followed by a line break.
pub open spec fn context_lines(ctx: Seq<Seq<char>>) -> Seq<char>
    decreases ctx.len(),
{
    if ctx.len() == 0 {
        seq![]
    } else {
        context_lines(ctx.drop_last()) + ctx.last() + seq!['\n']
    }
}

/// The user message: the context sentences, one per line, then the sentence.
pub open spec fn user_message(sentence: Seq<char>, ctx: Seq<Seq<char>>) -> Seq<char> {
    context_lines(ctx) + sentence
}

/// Build the user message for sentence analysis.
/// Includes the previous sentences as context if provided.
pub fn build_user_message(sentence: &str, context_sentences: &[String]) -> (r: String)
    ensures
        r@ == user_message(sentence@, context_sentences@.map_values(|s: String| s@)),
{
    let ghost ctx = context_sentences@.map_values(|s: String| s@);
    if context_sentences.len() == 0 {
        assert(context_lines(ctx) == Seq::<char>::empty());
        assert(user_message(sentence@, ctx) == sentence@);
        return String::from_str(sentence);
    }
    let mut msg = String::new();
    let mut i: usize = 0;
    while i < context_sentences.len()
        invariant
            i <= context_sentences@.len(),
            ctx == context_sentences@.map_values(|s: String| s@),
            msg@ == context_lines(ctx.take(i as int)),
        decreases context_sentences.len() - i,
    {
        push_str(&mut msg, context_sentences[i].as_str());
        msg.push('\n');
        i += 1;
        assert(ctx.take(i as int).drop_last() == ctx.take(i - 1));
    }
    assert(ctx.take(ctx.len() as int) == ctx);
    push_str(&mut msg, sentence);
    msg
}

/// The chat completions URL of an endpoint: its trailing slashes removed,
/// then `/chat/completions`.
pub open spec fn chat_url(endpoint: Seq<char>) -> Seq<char> {
    trim_end_slashes(endpoint) + "/chat/completions"@
}

/// The URL of the chat completions endpoint under `endpoint`.
pub fn chat_completions_url(endpoint: &str) -> (r: String)
    ensures
        r@ == chat_url(endpoint@),
{
    let v = to_chars(endpoint);
    let mut j: usize = v.len();
    assert(v@.take(j as int) == v@);
    while j > 0 && v[j - 1] == '/'
        invariant
            j <= v@.len(),
            v@ == endpoint@,
            trim_end_slashes(endpoint@) == trim_end_slashes(v@.take(j as int)),
        decreases j,
    {
        assert(v@.take(j as int).drop_last() == v@.take(j - 1));
        j -= 1;
    }
    let mut url = string_of_range(&v, 0, j);
    assert(v@.subrange(0, j as int) == v@.take(j as int));
    push_str(&mut url, "/chat/completions");
    url
}

/// The error for a missing API key, or nothing when a key is configured.
pub fn check_api_key(api_key: &str) -> (r: Result<(), String>)
    ensures
        r is Err <==> api_key@.len() == 0,
{
    if api_key.is_empty() {
        Err(
            String::from_str(
                "LLM API key not configured. Set it in Settings > LLM or in kotoba.toml under [llm].",
            ),
        )
    } else {
        Ok(())
    }
}

// ─── Reply clean-up ─────────────────────────────────────────────────

/// A reply with surrounding whitespace and markdown code fences removed:
/// a leading "```json" or "```", a trailing "```", then whitespace again.
pub open spec fn without_code_fences(raw: Seq<char>) -> Seq<char> {
    let t = trim(raw);
    let c = if starts_with(t, "```json"@) {
        t.skip("```json"@.len() as int)
    } else if starts_with(t, "```"@) {
        t.skip(3)
    } else {
        t
    };
    let d = if ends_with(c, "```"@) {
        c.take(c.len() - 3)
    } else {
        c
    };
    trim(d)
}

/// Strips markdown code fences (some models wrap JSON in ```json ... ```)
/// and surrounding whitespace from a model reply.
pub fn strip_code_fences(raw: &str) -> (r: String)
    ensures
        r@ == without_code_fences(raw@),
{
    proof {
        reveal_strlit("```json");
        reveal_strlit("```");
    }
    let t = trim_str(raw);
    let v = to_chars(t.as_str());
    let json_fence = to_chars("```json");
    let fence = to_chars("```");
    let start: usize = if chars_occur_at(&v, &json_fence, 0) {
        7
    } else if chars_occur_at(&v, &fence, 0) {
        3
    } else {
        0
    };
    assert(v@.skip(start as int) == v@.subrange(start as int, v@.len() as int));
    let c = string_of_range(&v, start, v.len());
    let ghost tt = trim(raw@);
    let ghost sc = if starts_with(tt, "```json"@) {
        tt.skip("```json"@.len() as int)
    } else if starts_with(tt, "```"@) {
        tt.skip(3)
    } else {
        tt
    };
    assert(starts_with(tt, "```json"@) == occurs_at(v@, json_fence@, 0));
    assert(starts_with(tt, "```"@) == occurs_at(v@, fence@, 0));
    assert(c@ == sc);
    let cv = to_chars(c.as_str());
    let end: usize = if cv.len() >= 3 && chars_occur_at(&cv, &fence, cv.len() - 3) {
        cv.len() - 3
    } else {
        cv.len()
    };
    assert(ends_with(cv@, "```"@) == (cv@.len() >= 3 && occurs_at(cv@, "```"@, cv@.len() - 3)));
    let d = string_of_range(&cv, 0, end);
    assert(cv@.subrange(0, end as int) == cv@.take(end as int));
    assert(cv@.take(cv@.len() as int) == cv@);
    let ghost sd = if ends_with(sc, "```"@) {
        sc.take(sc.len() - 3)
    } else {
        sc
    };
    assert(d@ == sd);
    trim_str(d.as_str())
}

} // verus!
