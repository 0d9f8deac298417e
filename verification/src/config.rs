//! Knowledge-base settings and their defaults.
use vstd::prelude::*;

use crate::paths::{join_path, path_join};
use crate::text::{chars_of, is_prefix_of, str_eq, str_starts_with, string_of_range};

verus! {

/// Which language-model server answers the prompts.
#[derive(Debug, Clone, Copy, PartialEq, Eq, Structural)]
pub enum LlmBackend {
    Ollama,
    Openai,
}

/// Language-model settings.
#[derive(Debug, Clone)]
pub struct LlmConfig {
    pub backend: LlmBackend,
    pub ollama_host: String,
    pub ollama_model: String,
    /// Vision-capable model for image ingest; falls back to `ollama_model`.
    pub vision_model: Option<String>,
    pub n_ctx: u32,
    /// Sampling temperature, in decimal notation (for example `0.3`).
    pub temperature: String,
    pub openai_base_url: Option<String>,
    pub openai_model: Option<String>,
    pub openai_api_key: Option<String>,
    pub openai_disable_thinking: bool,
    pub openai_timeout_secs: u64,
}

/// Default context window.
pub fn default_n_ctx() -> (r: u32)
    ensures
        r == 32768,
{
    32768
}

/// Default sampling temperature, `0.3`.
pub fn default_temperature() -> (r: String)
    ensures
        r@ == "0.3"@,
{
    String::from_str("0.3")
}

/// Default Ollama server address.
pub fn default_ollama_host() -> (r: String)
    ensures
        r@ == "http://127.0.0.1:11434"@,
{
    String::from_str("http://127.0.0.1:11434")
}

/// Default Ollama model.
pub fn default_ollama_model() -> (r: String)
    ensures
        r@ == "batiai/gemma4-e2b:q4"@,
{
    String::from_str("batiai/gemma4-e2b:q4")
}

/// Default request timeout for OpenAI-compatible servers, in seconds.
pub fn default_openai_timeout_secs() -> (r: u64)
    ensures
        r == 300,
{
    300
}

impl Default for LlmConfig {
    /// The default language-model settings: Ollama on the local host.
    fn default() -> (c: LlmConfig)
        ensures
            c.backend == LlmBackend::Ollama,
            c.ollama_host@ == "http://127.0.0.1:11434"@,
            c.ollama_model@ == "batiai/gemma4-e2b:q4"@,
            c.vision_model is None,
            c.n_ctx == 32768,
            c.temperature@ == "0.3"@,
            c.openai_base_url is None,
            c.openai_model is None,
            c.openai_api_key is None,
            !c.openai_disable_thinking,
            c.openai_timeout_secs == 300,
    {
        LlmConfig {
            backend: LlmBackend::Ollama,
            ollama_host: default_ollama_host(),
            ollama_model: default_ollama_model(),
            vision_model: None,
            n_ctx: default_n_ctx(),
            temperature: default_temperature(),
            openai_base_url: None,
            openai_model: None,
            openai_api_key: None,
            openai_disable_thinking: false,
            openai_timeout_secs: default_openai_timeout_secs(),
        }
    }
}

/// Knowledge-base settings.
#[derive(Debug, Clone)]
pub struct Config {
    pub llm: LlmConfig,
    pub language: String,
    pub pageindex_threshold: u32,
    pub entity_types: Vec<String>,
    /// Directories walked by `scan` and `watch` (`~` stands for the home directory).
    pub scan_paths: Vec<String>,
    pub max_file_size_mb: u64,
    pub exclude_patterns: Vec<String>,
    pub include_patterns: Vec<String>,
    /// Index image files through a vision model.
    pub image: bool,
    /// Index video and audio metadata stubs.
    pub index_media: bool,
    /// Index software user-profile paths (configs, saves, mods, userdata).
    pub index_user_profiles: bool,
    /// Folders whose documents always go to the private wiki.
    pub private_paths: Vec<String>,
    /// Let the model flag sensitive documents as private.
    pub private_detect: bool,
}

/// Default media indexing: off.
pub fn default_index_media() -> (r: bool)
    ensures
        !r,
{
    false
}

/// Default wiki language.
pub fn default_language() -> (r: String)
    ensures
        r@ == "en"@,
{
    String::from_str("en")
}

/// Default page count from which a PDF is a long document.
pub fn default_pageindex_threshold() -> (r: u32)
    ensures
        r == 20,
{
    20
}

/// The entity types of the default configuration, in order.
pub open spec fn default_entity_types_spec() -> Seq<Seq<char>> {
    seq!["person"@, "organization"@, "place"@, "product"@]
}

/// Default entity types: person, organization, place, product.
pub fn default_entity_types() -> (r: Vec<String>)
    ensures
        r@.map_values(|s: String| s@) == default_entity_types_spec(),
{
    let r = vec![
        String::from_str("person"),
        String::from_str("organization"),
        String::from_str("place"),
        String::from_str("product"),
    ];
    assert(r@.map_values(|s: String| s@) =~= default_entity_types_spec());
    r
}

/// The scan paths of the default configuration, in order.
pub open spec fn default_scan_paths_spec() -> Seq<Seq<char>> {
    seq!["~"@, "/media"@, "/mnt"@]
}

/// Default scan paths: the home directory, `/media` and `/mnt`.
pub fn default_scan_paths() -> (r: Vec<String>)
    ensures
        r@.map_values(|s: String| s@) == default_scan_paths_spec(),
{
    let r = vec![String::from_str("~"), String::from_str("/media"), String::from_str("/mnt")];
    assert(r@.map_values(|s: String| s@) =~= default_scan_paths_spec());
    r
}

/// Default largest file size to index, in megabytes.
pub fn default_max_file_size_mb() -> (r: u64)
    ensures
        r == 500,
{
    500
}

/// `s` with a leading `~` replaced by the home directory, when one is known:
/// `~` alone becomes the home directory and `~/rest` becomes the home directory joined
/// with `rest`; anything else is unchanged.
pub open spec fn expand(s: Seq<char>, home: Option<Seq<char>>) -> Seq<char> {
    match home {
        Some(h) => if s == "~"@ {
            h
        } else if is_prefix_of("~/"@, s) {
            path_join(h, s.subrange(2, s.len() as int))
        } else {
            s
        },
        None => s,
    }
}

/// The views of an optional string.
pub open spec fn opt_view(o: Option<&str>) -> Option<Seq<char>> {
    match o {
        Some(s) => Some(s@),
        None => None,
    }
}

/// The views of a list of strings.
pub open spec fn string_views(v: Seq<String>) -> Seq<Seq<char>> {
    v.map_values(|s: String| s@)
}

/// `c` is the default configuration: Ollama on the local host with the default model,
/// English, page indexes from 20 pages, the default entity types and scan paths, a
/// 500 MB limit, no extra patterns, media and profile paths off, no private paths, and
/// privacy detection on.
pub open spec fn is_default_config(c: Config) -> bool {
    &&& c.llm.backend == LlmBackend::Ollama
    &&& c.llm.ollama_host@ == "http://127.0.0.1:11434"@
    &&& c.llm.ollama_model@ == "batiai/gemma4-e2b:q4"@
    &&& c.llm.vision_model is None
    &&& c.llm.n_ctx == 32768
    &&& c.llm.temperature@ == "0.3"@
    &&& c.llm.openai_base_url is None
    &&& c.llm.openai_model is None
    &&& c.llm.openai_api_key is None
    &&& !c.llm.openai_disable_thinking
    &&& c.llm.openai_timeout_secs == 300
    &&& c.language@ == "en"@
    &&& c.pageindex_threshold == 20
    &&& string_views(c.entity_types@) == default_entity_types_spec()
    &&& string_views(c.scan_paths@) == default_scan_paths_spec()
    &&& c.max_file_size_mb == 500
    &&& c.exclude_patterns@.len() == 0
    &&& c.include_patterns@.len() == 0
    &&& !c.image
    &&& !c.index_media
    &&& !c.index_user_profiles
    &&& c.private_paths@.len() == 0
    &&& c.private_detect
}

impl Default for Config {
    /// The default configuration.
    fn default() -> (c: Config)
        ensures
            is_default_config(c),
    {
        Config {
            llm: LlmConfig::default(),
            language: default_language(),
            pageindex_threshold: default_pageindex_threshold(),
            entity_types: default_entity_types(),
            scan_paths: default_scan_paths(),
            max_file_size_mb: default_max_file_size_mb(),
            exclude_patterns: Vec::new(),
            include_patterns: Vec::new(),
            image: false,
            index_media: default_index_media(),
            index_user_profiles: false,
            private_paths: Vec::new(),
            private_detect: true,
        }
    }
}

impl Config {
    /// Expands a leading `~` to `home` (the value of `HOME`, when set).
    pub fn expand_path(s: &str, home: Option<&str>) -> (r: String)
        ensures
            r@ == expand(s@, opt_view(home)),
    {
        proof {
            reveal_strlit("~");
            reveal_strlit("~/");
        }
        match home {
            Some(h) => {
                if str_eq(s, "~") {
                    return String::from_str(h);
                }
                if str_starts_with(s, "~/") {
                    let v = chars_of(s);
                    let rest = string_of_range(&v, 2, v.len());
                    return join_path(h, rest.as_str());
                }
                String::from_str(s)
            },
            None => String::from_str(s),
        }
    }

    /// Path of the configuration file: `~/.everythingkb/config.toml`.
    pub fn default_path(home: Option<&str>) -> (r: String)
        ensures
            r@ == expand("~/.everythingkb/config.toml"@, opt_view(home)),
    {
        Config::expand_path("~/.everythingkb/config.toml", home)
    }

    /// The scan paths with `~` expanded, in order.
    pub fn resolved_scan_paths(&self, home: Option<&str>) -> (r: Vec<String>)
        ensures
            r@.len() == self.scan_paths@.len(),
            forall|i: int|
                0 <= i < r@.len() ==> #[trigger] r@[i]@ == expand(
                    self.scan_paths@[i]@,
                    opt_view(home),
                ),
    {
        expand_all(&self.scan_paths, home)
    }

    /// The private paths with `~` expanded, in order.
    pub fn resolved_private_paths(&self, home: Option<&str>) -> (r: Vec<String>)
        ensures
            r@.len() == self.private_paths@.len(),
            forall|i: int|
                0 <= i < r@.len() ==> #[trigger] r@[i]@ == expand(
                    self.private_paths@[i]@,
                    opt_view(home),
                ),
    {
        expand_all(&self.private_paths, home)
    }
}

/// Each path with `~` expanded, in order.
fn expand_all(paths: &Vec<String>, home: Option<&str>) -> (r: Vec<String>)
    ensures
        r@.len() == paths@.len(),
        forall|i: int|
            0 <= i < r@.len() ==> #[trigger] r@[i]@ == expand(paths@[i]@, opt_view(home)),
{
    let mut r: Vec<String> = Vec::new();
    let mut i: usize = 0;
    while i < paths.len()
        invariant
            i <= paths.len(),
            r@.len() == i,
            forall|j: int| 0 <= j < i ==> #[trigger] r@[j]@ == expand(paths@[j]@, opt_view(home)),
        decreases paths.len() - i,
    {
        r.push(Config::expand_path(paths[i].as_str(), home));
        i = i + 1;
    }
    r
}

} // verus!
