//! The analysis engine: which files it analyzes, and the line changes and
//! complexity metrics it computes for a changed file.

use vstd::prelude::*;

use crate::diff::{compute_line_changes, line_changes_view, numbered_lines, numbering_fits, patience_line_diff};
use crate::model::{CodeChange, ComplexityMetrics};
use crate::parsing::{
    extension_for_language, grammar_extensions, grammar_parsers, insert_parser, language_extension,
    new_parser_map, parse_with_map_parser, parser_languages, syntax_nodes, syntax_tree_nodes,
    GrammarParser, ParserMap, SourceLanguage,
};
use crate::syntax::{is_preorder_shape, lemma_counts_bounded, metrics_from_nodes, metrics_of, nodes_view};
use crate::text::{count_lines, extension_of, line_count, path_extension, same_str};
use vstd::string::StringExecFns;

verus! {

/// `num_cpus::get`: the number of logical CPUs available, at least 1.
#[verifier::external_body]
fn available_cpus() -> (n: usize)
    ensures
        n >= 1,
{
    num_cpus::get()
}

/// Configuration for the analysis engine
#[derive(Debug, Clone)]
pub struct AnalysisConfig {
    /// Maximum number of files to process concurrently
    pub max_concurrent_files: usize,
    /// Whether to include binary files in analysis
    pub include_binary_files: bool,
    /// File extensions to analyze
    pub supported_extensions: Vec<String>,
    /// Maximum file size to analyze (in bytes)
    pub max_file_size: usize,
}

/// The extensions analyzed by default.
pub open spec fn default_extensions() -> Seq<Seq<char>> {
    seq![
        "rs"@,
        "py"@,
        "js"@,
        "ts"@,
        "go"@,
        "java"@,
        "cpp"@,
        "c"@,
        "h"@,
        "tsx"@,
    ]
}

/// The extensions of a configuration as plain values.
pub open spec fn extensions_view(config: AnalysisConfig) -> Seq<Seq<char>> {
    config.supported_extensions@.map_values(|s: String| s@)
}

impl AnalysisConfig {
    /// The default configuration with `max_concurrent_files` files at a time:
    /// no binary files, the default extensions, files up to 1 MiB.
    pub fn with_concurrency(max_concurrent_files: usize) -> (c: Self)
        ensures
            c.max_concurrent_files == max_concurrent_files,
            !c.include_binary_files,
            extensions_view(c) == default_extensions(),
            c.max_file_size == 1024 * 1024,
    {
        let mut supported_extensions: Vec<String> = Vec::new();
        supported_extensions.push(String::from_str("rs"));
        supported_extensions.push(String::from_str("py"));
        supported_extensions.push(String::from_str("js"));
        supported_extensions.push(String::from_str("ts"));
        supported_extensions.push(String::from_str("go"));
        supported_extensions.push(String::from_str("java"));
        supported_extensions.push(String::from_str("cpp"));
        supported_extensions.push(String::from_str("c"));
        supported_extensions.push(String::from_str("h"));
        supported_extensions.push(String::from_str("tsx"));
        let c = AnalysisConfig {
            max_concurrent_files,
            include_binary_files: false,
            supported_extensions,
            max_file_size: 1024 * 1024,
        };
        assert(extensions_view(c) =~= default_extensions());
        c
    }
}

impl Default for AnalysisConfig {
    /// One file per CPU, no binary files, the default extensions, 1 MiB files.
    fn default() -> (c: Self)
        ensures
            c.max_concurrent_files >= 1,
            !c.include_binary_files,
            extensions_view(c) == default_extensions(),
            c.max_file_size == 1024 * 1024,
    {
        Self::with_concurrency(available_cpus())
    }
}

/// The metrics used when no syntax tree is at hand: only the lines of the
/// content, counted as `str::lines` does (truncated to 32 bits).
pub open spec fn line_metrics(content: Seq<char>) -> ComplexityMetrics {
    ComplexityMetrics {
        cyclomatic_complexity: 0,
        lines_of_code: line_count(content) as u32,
        function_count: 0,
        max_nesting_depth: 0,
    }
}

/// The extension a path selects a parser by (empty when it has none).
pub open spec fn parser_key(path: Seq<char>) -> Seq<char> {
    match path_extension(path) {
        Some(e) => e,
        None => Seq::empty(),
    }
}

/// Main analysis engine
pub struct CodeAnalysisEngine {
    config: AnalysisConfig,
    parsers: ParserMap,
}

impl CodeAnalysisEngine {
    /// The configuration of the engine.
    pub closed spec fn spec_config(self) -> AnalysisConfig {
        self.config
    }

    /// The parsers the engine holds: for each extension, the language of its
    /// parser.
    pub closed spec fn parsers_view(self) -> Map<Seq<char>, SourceLanguage> {
        parser_languages(self.parsers)
    }

    /// The extensions the engine holds a parser for.
    pub open spec fn parser_extensions(self) -> Set<Seq<char>> {
        self.parsers_view().dom()
    }

    /// The complexity of `content` at `path`: the metrics of the nodes that the
    /// parser for the path's extension gives, or the line metrics when there is
    /// no parser for it.
    pub open spec fn complexity_of(self, path: Seq<char>, content: Seq<char>) -> ComplexityMetrics {
        let key = parser_key(path);
        if self.parsers_view().contains_key(key) {
            metrics_of(syntax_tree_nodes(self.parsers_view()[key], content))
        } else {
            line_metrics(content)
        }
    }

    /// Create a new analysis engine with default configuration
    pub fn new() -> (e: Self)
        ensures
            e.spec_config().max_concurrent_files >= 1,
            !e.spec_config().include_binary_files,
            extensions_view(e.spec_config()) == default_extensions(),
            e.spec_config().max_file_size == 1024 * 1024,
            e.parsers_view() == grammar_parsers(),
            e.parser_extensions() == grammar_extensions(),
    {
        Self::with_config(AnalysisConfig::default())
    }

    /// Create a new analysis engine with custom configuration
    pub fn with_config(config: AnalysisConfig) -> (e: Self)
        ensures
            e.spec_config() == config,
            e.parsers_view() == grammar_parsers(),
            e.parser_extensions() == grammar_extensions(),
    {
        let mut parsers = new_parser_map();
        Self::init_parsers(&mut parsers);
        proof {
            assert(parser_languages(parsers) =~= grammar_parsers());
            assert(parser_languages(parsers).dom() =~= grammar_extensions());
        }
        CodeAnalysisEngine { config, parsers }
    }

    /// Registers a parser for `lang` when its grammar can be loaded (it always
    /// can): afterwards the extension of `lang` maps to a parser for `lang`.
    fn register_language(parsers: &mut ParserMap, lang: SourceLanguage)
        ensures
            parser_languages(*final(parsers)) == parser_languages(*old(parsers)).insert(
                language_extension(lang),
                lang,
            ),
    {
        if let Some(parser) = GrammarParser::new(lang) {
            insert_parser(parsers, extension_for_language(lang), parser);
        }
    }

    /// Registers the parsers for Rust, Python, JavaScript, TypeScript, TSX and
    /// Go: afterwards the map holds, besides what it held, a parser for each of
    /// these languages under its extension.
    fn init_parsers(parsers: &mut ParserMap)
        ensures
            parser_languages(*final(parsers)) == parser_languages(*old(parsers)).union_prefer_right(
                grammar_parsers(),
            ),
    {
        let ghost start = parser_languages(*parsers);
        Self::register_language(parsers, SourceLanguage::Rust);
        Self::register_language(parsers, SourceLanguage::Python);
        Self::register_language(parsers, SourceLanguage::JavaScript);
        Self::register_language(parsers, SourceLanguage::TypeScript);
        Self::register_language(parsers, SourceLanguage::Tsx);
        Self::register_language(parsers, SourceLanguage::Go);
        assert(parser_languages(*parsers) =~= start.union_prefer_right(grammar_parsers()));
    }

    /// The configuration of the engine.
    pub fn config(&self) -> (c: &AnalysisConfig)
        ensures
            *c == self.spec_config(),
    {
        &self.config
    }

    /// Whether the file at `file_path` is analyzed: its extension is one of the
    /// configured extensions.
    pub fn should_analyze_file(&self, file_path: &str) -> (b: bool)
        ensures
            b == (path_extension(file_path@) matches Some(e) && extensions_view(
                self.spec_config(),
            ).contains(e)),
    {
        match extension_of(file_path) {
            Some(ext) => {
                let exts = &self.config.supported_extensions;
                let ghost view = extensions_view(self.config);
                let mut i: usize = 0;
                while i < exts.len()
                    invariant
                        i <= exts.len(),
                        exts@ == self.config.supported_extensions@,
                        view == extensions_view(self.config),
                        view.len() == exts.len(),
                        path_extension(file_path@) == Some(ext@),
                        forall|k: int| 0 <= k < i ==> view[k] != ext@,
                    decreases exts.len() - i,
                {
                    if same_str(exts[i].as_str(), ext.as_str()) {
                        assert(view[i as int] == ext@);
                        assert(view.contains(ext@));
                        return true;
                    }
                    i = i + 1;
                }
                false
            },
            None => false,
        }
    }

    /// Whether both versions of a file are small enough to analyze: each holds
    /// at most `max_file_size` bytes.
    pub fn contents_within_size_limit(&self, old_content: &str, new_content: &str) -> (b: bool)
        ensures
            b == (old_content.len() <= self.spec_config().max_file_size
                && new_content.len() <= self.spec_config().max_file_size),
    {
        old_content.len() <= self.config.max_file_size && new_content.len() <= self.config.max_file_size
    }

    /// The complexity metrics of `content`, parsed with the parser for the
    /// extension of `file_path`, or its line count when there is no parser.
    pub fn compute_complexity_metrics(&self, file_path: &str, content: &str) -> (m: ComplexityMetrics)
        ensures
            m == self.complexity_of(file_path@, content@),
            self.parsers_view().contains_key(parser_key(file_path@)) ==> is_preorder_shape(
                syntax_tree_nodes(self.parsers_view()[parser_key(file_path@)], content@),
            ),
    {
        let extension = match extension_of(file_path) {
            Some(e) => e,
            None => String::new(),
        };
        assert(extension@ == parser_key(file_path@));
        if let Some(Some(tree)) = parse_with_map_parser(&self.parsers, extension.as_str(), content) {
            let nodes = syntax_nodes(&tree);
            proof {
                lemma_counts_bounded(nodes_view(nodes@));
            }
            return metrics_from_nodes(&nodes);
        }
        ComplexityMetrics {
            cyclomatic_complexity: 0,
            lines_of_code: count_lines(content) as u32,
            function_count: 0,
            max_nesting_depth: 0,
        }
    }

    /// The change of one file: its line changes and the complexity of its new
    /// content. `None` when a side has too many lines to number in a `u32`.
    pub fn analyze_file_change(&self, file_path: &str, old_content: &str, new_content: &str) -> (r:
        Option<CodeChange>)
        ensures
            r is Some <==> numbering_fits(patience_line_diff(old_content@, new_content@)),
            (!old_content@.contains('\r') && !new_content@.contains('\r')) ==> (r is Some <==> (
            line_count(old_content@) < u32::MAX && line_count(new_content@) < u32::MAX)),
            r matches Some(c) ==> {
                &&& c.file_path@ == file_path@
                &&& c.old_content@ == old_content@
                &&& c.new_content@ == new_content@
                &&& line_changes_view(c.line_changes@) == numbered_lines(
                    patience_line_diff(old_content@, new_content@),
                )
                &&& c.complexity == self.complexity_of(file_path@, new_content@)
            },
    {
        match compute_line_changes(old_content, new_content) {
            Some(line_changes) => {
                let complexity = self.compute_complexity_metrics(file_path, new_content);
                Some(
                    CodeChange {
                        file_path: String::from_str(file_path),
                        old_content: String::from_str(old_content),
                        new_content: String::from_str(new_content),
                        line_changes,
                        complexity,
                    },
                )
            },
            None => None,
        }
    }
}

impl Default for CodeAnalysisEngine {
    fn default() -> (e: Self)
        ensures
            e.spec_config().max_concurrent_files >= 1,
            !e.spec_config().include_binary_files,
            extensions_view(e.spec_config()) == default_extensions(),
            e.spec_config().max_file_size == 1024 * 1024,
            e.parsers_view() == grammar_parsers(),
            e.parser_extensions() == grammar_extensions(),
    {
        Self::new()
    }
}

} // verus!
