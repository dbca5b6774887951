//! Application settings, their defaults, and where the data files live.
use vstd::prelude::*;
use crate::text::push_str;

verus! {

pub struct AppConfig {
    pub general: GeneralConfig,
    pub reader: ReaderConfig,
    pub srs: SrsConfig,
    pub llm: LlmConfig,
}

pub struct GeneralConfig {
    /// Path to the SQLite database. Defaults to the data dir (~/.local/share/kotoba/kotoba.db).
    pub db_path: Option<String>,
    /// Path to the JMdict XML file. Defaults to the data dir (~/.local/share/kotoba/JMdict_e.xml).
    pub jmdict_path: Option<String>,
    pub theme: String,
}

pub struct ReaderConfig {
    pub sidebar_width: u16,
    pub furigana: bool,
    /// Add a 1-row gap between sentences for readability.
    pub sentence_gaps: bool,
    /// Number of chapters to keep preprocessed ahead of the reader.
    pub preprocess_ahead: usize,
}

pub struct SrsConfig {
    pub new_cards_per_day: u32,
    pub max_reviews_per_session: u32,
    /// Review order: "due_first" (default) or "random".
    pub review_order: String,
    /// Require typed reading input for word cards during review.
    pub require_typed_input: bool,
    /// Enable sentence cloze variant during word card review.
    pub enable_sentence_cloze: bool,
    /// Probability (0-100) of showing a sentence cloze variant instead of
    /// the normal word front. Only used when enable_sentence_cloze is true.
    pub sentence_cloze_ratio: u32,
}

pub struct LlmConfig {
    pub endpoint: String,
    pub api_key: String,
    pub model: String,
    pub max_tokens: usize,
}

pub fn default_theme() -> (r: String)
    ensures
        r@ == "tokyo-night"@,
{
    String::from_str("tokyo-night")
}

pub fn default_sidebar_width() -> (r: u16)
    ensures
        r == 30,
{
    30
}

pub fn default_true() -> (r: bool)
    ensures
        r,
{
    true
}

pub fn default_preprocess_ahead() -> (r: usize)
    ensures
        r == 3,
{
    3
}

pub fn default_cloze_ratio() -> (r: u32)
    ensures
        r == 50,
{
    50
}

pub fn default_new_cards() -> (r: u32)
    ensures
        r == 20,
{
    20
}

pub fn default_review_order() -> (r: String)
    ensures
        r@ == "due_first"@,
{
    String::from_str("due_first")
}

pub fn default_llm_endpoint() -> (r: String)
    ensures
        r@ == "https://api.openai.com/v1"@,
{
    String::from_str("https://api.openai.com/v1")
}

pub fn default_model() -> (r: String)
    ensures
        r@ == "gpt-4o"@,
{
    String::from_str("gpt-4o")
}

pub fn default_max_tokens() -> (r: usize)
    ensures
        r == 2048,
{
    2048
}

impl Default for ReaderConfig {
    fn default() -> (r: Self)
        ensures
            r.sidebar_width == 30,
            r.furigana,
            r.sentence_gaps,
            r.preprocess_ahead == 3,
    {
        ReaderConfig {
            sidebar_width: default_sidebar_width(),
            furigana: true,
            sentence_gaps: true,
            preprocess_ahead: default_preprocess_ahead(),
        }
    }
}

impl Default for SrsConfig {
    fn default() -> (r: Self)
        ensures
            r.new_cards_per_day == 20,
            r.max_reviews_per_session == 0,
            r.review_order@ == "due_first"@,
            !r.require_typed_input,
            !r.enable_sentence_cloze,
            r.sentence_cloze_ratio == 50,
    {
        SrsConfig {
            new_cards_per_day: 20,
            max_reviews_per_session: 0,
            review_order: default_review_order(),
            require_typed_input: false,
            enable_sentence_cloze: false,
            sentence_cloze_ratio: default_cloze_ratio(),
        }
    }
}

impl Default for LlmConfig {
    fn default() -> (r: Self)
        ensures
            r.endpoint@ == "https://api.openai.com/v1"@,
            r.api_key@.len() == 0,
            r.model@ == "gpt-4o"@,
            r.max_tokens == 2048,
    {
        LlmConfig {
            endpoint: default_llm_endpoint(),
            api_key: String::new(),
            model: default_model(),
            max_tokens: default_max_tokens(),
        }
    }
}

impl Default for AppConfig {
    fn default() -> (r: Self)
        ensures
            r.general.db_path is None,
            r.general.jmdict_path is None,
            r.general.theme@ == "tokyo-night"@,
            r.reader.sidebar_width == 30,
            r.reader.furigana,
            r.reader.sentence_gaps,
            r.reader.preprocess_ahead == 3,
            r.srs.new_cards_per_day == 20,
            r.srs.max_reviews_per_session == 0,
            r.srs.review_order@ == "due_first"@,
            !r.srs.require_typed_input,
            !r.srs.enable_sentence_cloze,
            r.srs.sentence_cloze_ratio == 50,
            r.llm.endpoint@ == "https://api.openai.com/v1"@,
            r.llm.api_key@.len() == 0,
            r.llm.model@ == "gpt-4o"@,
            r.llm.max_tokens == 2048,
    {
        AppConfig {
            general: GeneralConfig { db_path: None, jmdict_path: None, theme: default_theme() },
            reader: ReaderConfig::default(),
            srs: SrsConfig::default(),
            llm: LlmConfig::default(),
        }
    }
}

// ─── Data file locations ────────────────────────────────────────────

/// `base` with the relative path `name` appended, as `Path::join` does on
/// Unix: with a `/` between them unless `base` is empty or already ends with one.
pub open spec fn joined_path(base: Seq<char>, name: Seq<char>) -> Seq<char> {
    if base.len() == 0 {
        name
    } else if base.last() == '/' {
        base + name
    } else {
        base + seq!['/'] + name
    }
}

/// Appends a relative path to a directory path.
pub fn join_path(base: &str, name: &str) -> (r: String)
    ensures
        r@ == joined_path(base@, name@),
{
    let v = crate::text::to_chars(base);
    let mut out = String::from_str(base);
    if v.len() > 0 && v[v.len() - 1] != '/' {
        out.push('/');
    }
    push_str(&mut out, name);
    out
}

/// The application's data directory under the platform data directory
/// (the current directory when there is none).
pub open spec fn data_dir_under(platform_dir: Option<Seq<char>>) -> Seq<char> {
    joined_path(
        match platform_dir {
            Some(d) => d,
            None => "."@,
        },
        "kotoba"@,
    )
}

pub open spec fn opt_string_view(o: Option<String>) -> Option<Seq<char>> {
    match o {
        Some(s) => Some(s@),
        None => None,
    }
}

/// A configured path, or the file `name` in the data directory.
pub open spec fn resolved_path(configured: Option<Seq<char>>, platform_dir: Option<Seq<char>>, name: Seq<char>) -> Seq<char> {
    match configured {
        Some(p) => p,
        None => joined_path(data_dir_under(platform_dir), name),
    }
}

/// Calls `dirs::data_dir`. Where the platform keeps application data
/// depends on the environment, so nothing is stated of the result.
#[verifier::external_body]
fn platform_data_dir() -> Option<String> {
    dirs::data_dir().map(|p| p.to_string_lossy().into_owned())
}

fn path_or_default(configured: &Option<String>, platform_dir: Option<String>, name: &str) -> (r: String)
    ensures
        r@ == resolved_path(opt_string_view(*configured), opt_string_view(platform_dir), name@),
{
    match configured {
        Some(p) => p.clone(),
        None => {
            let base = match platform_dir {
                Some(d) => d,
                None => String::from_str("."),
            };
            let dir = join_path(base.as_str(), "kotoba");
            join_path(dir.as_str(), name)
        },
    }
}

impl AppConfig {
    /// The database path: the configured one, or kotoba.db in the data
    /// directory under the given platform data directory.
    pub fn db_path_in(&self, platform_dir: Option<String>) -> (r: String)
        ensures
            r@ == resolved_path(opt_string_view(self.general.db_path), opt_string_view(platform_dir), "kotoba.db"@),
    {
        path_or_default(&self.general.db_path, platform_dir, "kotoba.db")
    }

    /// The JMdict path: the configured one, or JMdict_e.xml in the data
    /// directory under the given platform data directory.
    pub fn jmdict_path_in(&self, platform_dir: Option<String>) -> (r: String)
        ensures
            r@ == resolved_path(
                opt_string_view(self.general.jmdict_path),
                opt_string_view(platform_dir),
                "JMdict_e.xml"@,
            ),
    {
        path_or_default(&self.general.jmdict_path, platform_dir, "JMdict_e.xml")
    }

    /// Resolved DB path — uses the configured path or defaults to the platform data dir.
    pub fn db_path(&self) -> (r: String)
        ensures
            exists|d: Option<Seq<char>>|
                r@ == #[trigger] resolved_path(opt_string_view(self.general.db_path), d, "kotoba.db"@),
    {
        let r = self.db_path_in(platform_data_dir());
        r
    }

    /// Resolved JMdict path — uses the configured path or defaults to the platform data dir.
    pub fn jmdict_path(&self) -> (r: String)
        ensures
            exists|d: Option<Seq<char>>|
                r@ == #[trigger] resolved_path(opt_string_view(self.general.jmdict_path), d, "JMdict_e.xml"@),
    {
        let r = self.jmdict_path_in(platform_data_dir());
        r
    }
}

} // verus!
