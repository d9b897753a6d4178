//! The grammar registry: one highlight configuration for each language, all
//! configured with the category names of one palette, so that a category
//! index means the same in every language.

use vstd::prelude::*;
use crate::palette::{standard_colors, standard_fallback, standard_names, Palette, PaletteView};
use tree_sitter_highlight::HighlightConfiguration;

verus! {

/// A tree-sitter grammar. Opaque here: it is only handed on.
#[verifier::external_type_specification]
#[verifier::external_body]
pub struct ExLanguage(tree_sitter::Language);

/// A compiled highlight configuration of tree-sitter. Opaque here.
#[verifier::external_type_specification]
#[verifier::external_body]
pub struct ExHighlightConfiguration(HighlightConfiguration);

/// `tree_sitter_javascript::language`: the JavaScript grammar.
pub assume_specification[ tree_sitter_javascript::language ]() -> tree_sitter::Language;

/// `tree_sitter_typescript::language_typescript`: the TypeScript grammar.
pub assume_specification[ tree_sitter_typescript::language_typescript ]() -> tree_sitter::Language;

/// `tree_sitter_html::language`: the HTML grammar.
pub assume_specification[ tree_sitter_html::language ]() -> tree_sitter::Language;

/// The queries that ship with the JavaScript grammar: highlights,
/// injections and local names. Trusted, with nothing claimed of them.
#[verifier::external_body]
fn javascript_queries() -> (&'static str, &'static str, &'static str) {
    (
        tree_sitter_javascript::HIGHLIGHT_QUERY,
        tree_sitter_javascript::INJECTIONS_QUERY,
        tree_sitter_javascript::LOCALS_QUERY,
    )
}

/// The highlight query that ships with the TypeScript grammar. Trusted,
/// with nothing claimed of it.
#[verifier::external_body]
fn typescript_highlights_query() -> &'static str {
    tree_sitter_typescript::HIGHLIGHTS_QUERY
}

/// The queries that ship with the HTML grammar: highlights and injections.
/// Trusted, with nothing claimed of them.
#[verifier::external_body]
fn html_queries() -> (&'static str, &'static str) {
    (tree_sitter_html::HIGHLIGHTS_QUERY, tree_sitter_html::INJECTIONS_QUERY)
}

/// The configuration that tree-sitter compiles for a grammar from a name
/// and three queries, or `None` where the queries do not compile against
/// the grammar. It stands for the outcome of `HighlightConfiguration::new`.
pub uninterp spec fn compiled(
    language: tree_sitter::Language,
    name: Seq<char>,
    highlights_query: Seq<char>,
    injections_query: Seq<char>,
    locals_query: Seq<char>,
) -> Option<HighlightConfiguration>;

/// A configuration once it was told which category names to report. It
/// stands for the outcome of `HighlightConfiguration::configure`.
pub uninterp spec fn configured(
    configuration: HighlightConfiguration,
    names: Seq<Seq<char>>,
) -> HighlightConfiguration;

/// Category names as mathematics.
pub open spec fn names_view(names: Seq<&'static str>) -> Seq<Seq<char>> {
    names.map_values(|name: &'static str| name@)
}

/// Compiles a configuration with `HighlightConfiguration::new`.
///
/// Trusted: the outcome depends on the arguments alone, so it is `compiled`
/// of them; an error of the call gives `None`.
#[verifier::external_body]
fn compile_configuration(
    language: tree_sitter::Language,
    name: &str,
    highlights_query: &str,
    injections_query: &str,
    locals_query: &str,
) -> (configuration: Option<HighlightConfiguration>)
    ensures
        configuration == compiled(
            language,
            name@,
            highlights_query@,
            injections_query@,
            locals_query@,
        ),
{
    HighlightConfiguration::new(language, name, highlights_query, injections_query, locals_query).ok()
}

/// Tells a configuration which category names to report, with
/// `HighlightConfiguration::configure`: the events that it yields afterwards
/// carry indices into `names`.
///
/// Trusted: the outcome depends on the configuration and the names alone,
/// so it is `configured` of the two.
#[verifier::external_body]
fn configure_names(configuration: &mut HighlightConfiguration, names: &Vec<&'static str>)
    ensures
        *final(configuration) == configured(*old(configuration), names_view(names@)),
{
    configuration.configure(names.as_slice());
}

/// A language that the editor highlights.
#[derive(Clone, Copy, Debug, PartialEq, Eq, Structural)]
pub enum SourceLanguage {
    JavaScript,
    TypeScript,
    Html,
}

/// The language that `name` selects. Any unknown name selects JavaScript.
pub open spec fn language_named(name: Seq<char>) -> SourceLanguage {
    if name == "html"@ {
        SourceLanguage::Html
    } else if name == "typescript"@ {
        SourceLanguage::TypeScript
    } else {
        SourceLanguage::JavaScript
    }
}

impl SourceLanguage {
    /// The name that the language is registered under.
    pub open spec fn spec_name(self) -> Seq<char> {
        match self {
            SourceLanguage::JavaScript => "javascript"@,
            SourceLanguage::TypeScript => "typescript"@,
            SourceLanguage::Html => "html"@,
        }
    }

    /// The name that the language is registered under.
    pub fn name(self) -> (name: &'static str)
        ensures
            name@ == self.spec_name(),
    {
        match self {
            SourceLanguage::JavaScript => "javascript",
            SourceLanguage::TypeScript => "typescript",
            SourceLanguage::Html => "html",
        }
    }

    /// The language registered under `name`; JavaScript for a name that
    /// nothing is registered under.
    pub fn from_name(name: &str) -> (language: SourceLanguage)
        ensures
            language == language_named(name@),
    {
        let name = name.to_owned();
        if name == "html".to_owned() {
            SourceLanguage::Html
        } else if name == "typescript".to_owned() {
            SourceLanguage::TypeScript
        } else {
            SourceLanguage::JavaScript
        }
    }
}

/// The highlight configuration of one language. Where the grammar's queries
/// did not compile there is none, and text in that language stays unstyled.
pub struct Grammar {
    pub language: SourceLanguage,
    pub configuration: Option<HighlightConfiguration>,
}

/// The grammar that comes of compiling the given queries for `language`
/// and configuring the outcome with `names`.
pub open spec fn compiled_grammar(
    language: SourceLanguage,
    grammar: tree_sitter::Language,
    highlights_query: Seq<char>,
    injections_query: Seq<char>,
    locals_query: Seq<char>,
    names: Seq<Seq<char>>,
) -> Grammar {
    Grammar {
        language,
        configuration: match compiled(
            grammar,
            language.spec_name(),
            highlights_query,
            injections_query,
            locals_query,
        ) {
            Some(configuration) => Some(configured(configuration, names)),
            None => None,
        },
    }
}

/// `grammar`, configured anew with `names`.
pub open spec fn with_names(grammar: Grammar, names: Seq<Seq<char>>) -> Grammar {
    Grammar {
        language: grammar.language,
        configuration: match grammar.configuration {
            Some(configuration) => Some(configured(configuration, names)),
            None => None,
        },
    }
}

/// Whether the configuration of `grammar`, where it has one, was configured
/// with `names`, so that the categories that it reports are places in
/// `names`.
pub open spec fn configured_with(grammar: Grammar, names: Seq<Seq<char>>) -> bool {
    grammar.configuration matches Some(configuration) ==> exists|before: HighlightConfiguration|
        configuration == #[trigger] configured(before, names)
}

/// Which queries a language is loaded with besides its highlight query:
/// JavaScript has injections and local names; TypeScript has no injections;
/// HTML tracks no local names.
pub open spec fn loads_with(
    language: SourceLanguage,
    injections_query: Seq<char>,
    locals_query: Seq<char>,
) -> bool {
    match language {
        SourceLanguage::JavaScript => true,
        SourceLanguage::TypeScript => injections_query.len() == 0,
        SourceLanguage::Html => locals_query.len() == 0,
    }
}

/// Whether `grammar` is what `Grammar::load` gives for `language` and
/// `names`: the outcome of compiling, for some tree-sitter grammar and the
/// queries that the language is loaded with, configured with `names`.
pub open spec fn loaded(grammar: Grammar, language: SourceLanguage, names: Seq<Seq<char>>) -> bool {
    exists|
        tree: tree_sitter::Language,
        highlights_query: Seq<char>,
        injections_query: Seq<char>,
        locals_query: Seq<char>,
    |
        grammar == #[trigger] compiled_grammar(
            language,
            tree,
            highlights_query,
            injections_query,
            locals_query,
            names,
        ) && loads_with(language, injections_query, locals_query)
}

/// A grammar that was loaded with `names` is configured with them.
pub proof fn lemma_loaded_is_configured(
    grammar: Grammar,
    language: SourceLanguage,
    names: Seq<Seq<char>>,
)
    requires
        loaded(grammar, language, names),
    ensures
        grammar.language == language,
        configured_with(grammar, names),
{
    let (tree, highlights_query, injections_query, locals_query) = choose|
        tree: tree_sitter::Language,
        highlights_query: Seq<char>,
        injections_query: Seq<char>,
        locals_query: Seq<char>,
    |
        grammar == #[trigger] compiled_grammar(
            language,
            tree,
            highlights_query,
            injections_query,
            locals_query,
            names,
        ) && loads_with(language, injections_query, locals_query);
    match compiled(
        tree,
        language.spec_name(),
        highlights_query,
        injections_query,
        locals_query,
    ) {
        Some(before) => {
            assert(grammar.configuration == Some(configured(before, names)));
        },
        None => {},
    }
}

/// Configures `grammar` anew with `names`.
fn reconfigure(grammar: Grammar, names: &Vec<&'static str>) -> (again: Grammar)
    ensures
        again == with_names(grammar, names_view(names@)),
        configured_with(again, names_view(names@)),
{
    match grammar.configuration {
        Some(mut configuration) => {
            let ghost before = configuration;
            configure_names(&mut configuration, names);
            assert(configuration == configured(before, names_view(names@)));
            Grammar { language: grammar.language, configuration: Some(configuration) }
        },
        None => Grammar { language: grammar.language, configuration: None },
    }
}

impl Grammar {
    /// Compiles the queries for the tree-sitter grammar of `language`, under
    /// the language's name, and configures the outcome with the category
    /// names of `palette`. Where the queries do not compile the grammar has
    /// no configuration.
    pub fn compile(
        language: SourceLanguage,
        grammar: tree_sitter::Language,
        highlights_query: &str,
        injections_query: &str,
        locals_query: &str,
        palette: &Palette,
    ) -> (compiled: Grammar)
        ensures
            compiled == compiled_grammar(
                language,
                grammar,
                highlights_query@,
                injections_query@,
                locals_query@,
                palette@.names,
            ),
    {
        let outcome = compile_configuration(
            grammar,
            language.name(),
            highlights_query,
            injections_query,
            locals_query,
        );
        match outcome {
            Some(mut configuration) => {
                let names = palette.names();
                assert(names_view(names@) =~= palette@.names);
                configure_names(&mut configuration, &names);
                Grammar { language, configuration: Some(configuration) }
            },
            None => Grammar { language, configuration: None },
        }
    }

    /// Loads the grammar of `language` with the queries that ship with it,
    /// and configures it with the category names of `palette`. JavaScript
    /// has all three queries; TypeScript has no injections and tracks local
    /// names as JavaScript does; HTML tracks no local names.
    pub fn load(language: SourceLanguage, palette: &Palette) -> (grammar: Grammar)
        ensures
            grammar.language == language,
            loaded(grammar, language, palette@.names),
    {
        proof {
            reveal_strlit("");
        }
        match language {
            SourceLanguage::JavaScript => {
                let (highlights, injections, locals) = javascript_queries();
                Grammar::compile(
                    language,
                    tree_sitter_javascript::language(),
                    highlights,
                    injections,
                    locals,
                    palette,
                )
            },
            SourceLanguage::TypeScript => {
                let (_, _, locals) = javascript_queries();
                Grammar::compile(
                    language,
                    tree_sitter_typescript::language_typescript(),
                    typescript_highlights_query(),
                    "",
                    locals,
                    palette,
                )
            },
            SourceLanguage::Html => {
                let (highlights, injections) = html_queries();
                Grammar::compile(language, tree_sitter_html::language(), highlights, injections, "", palette)
            },
        }
    }
}

/// The palette and the grammars of every language. Every grammar is
/// configured with the palette's category names, so that a category index
/// means the same in every language. A registry is built once and never
/// changed.
pub struct Registry {
    palette: Palette,
    javascript: Grammar,
    typescript: Grammar,
    html: Grammar,
}

impl Registry {
    /// The palette that every grammar is configured with.
    pub closed spec fn palette_view(&self) -> PaletteView {
        self.palette@
    }

    /// The grammar registered for `language`.
    pub closed spec fn grammar(&self, language: SourceLanguage) -> Grammar {
        match language {
            SourceLanguage::JavaScript => self.javascript,
            SourceLanguage::TypeScript => self.typescript,
            SourceLanguage::Html => self.html,
        }
    }

    /// Every grammar stands under its own language and is configured with
    /// the category names of the palette.
    #[verifier::type_invariant]
    spec fn registered_in_place(self) -> bool {
        &&& self.javascript.language == SourceLanguage::JavaScript
        &&& self.typescript.language == SourceLanguage::TypeScript
        &&& self.html.language == SourceLanguage::Html
        &&& configured_with(self.javascript, self.palette@.names)
        &&& configured_with(self.typescript, self.palette@.names)
        &&& configured_with(self.html, self.palette@.names)
    }

    /// The registry of the editor: the standard palette, and JavaScript,
    /// TypeScript and HTML, each loaded with the queries that ship with it
    /// and configured with the names of that palette.
    pub fn new() -> (registry: Registry)
        ensures
            registry.palette_view().names == standard_names(),
            registry.palette_view().colors == standard_colors(),
            registry.palette_view().fallback == standard_fallback(),
            forall|language: SourceLanguage|
                loaded(
                    #[trigger] registry.grammar(language),
                    language,
                    registry.palette_view().names,
                ),
            forall|language: SourceLanguage|
                (#[trigger] registry.grammar(language)).language == language,
    {
        let palette = Palette::standard();
        let javascript = Grammar::load(SourceLanguage::JavaScript, &palette);
        let typescript = Grammar::load(SourceLanguage::TypeScript, &palette);
        let html = Grammar::load(SourceLanguage::Html, &palette);
        proof {
            lemma_loaded_is_configured(javascript, SourceLanguage::JavaScript, palette@.names);
            lemma_loaded_is_configured(typescript, SourceLanguage::TypeScript, palette@.names);
            lemma_loaded_is_configured(html, SourceLanguage::Html, palette@.names);
        }
        let registry = Registry { palette, javascript, typescript, html };
        proof {
            assert forall|language: SourceLanguage|
                loaded(
                    #[trigger] registry.grammar(language),
                    language,
                    registry.palette_view().names,
                ) by {
                match language {
                    SourceLanguage::JavaScript => {
                        assert(registry.grammar(language) == javascript);
                    },
                    SourceLanguage::TypeScript => {
                        assert(registry.grammar(language) == typescript);
                    },
                    SourceLanguage::Html => {
                        assert(registry.grammar(language) == html);
                    },
                }
            }
        }
        registry
    }

    /// A registry of the given palette and grammars, each configured anew
    /// with the palette's category names. There is none unless each grammar
    /// stands under its own language.
    pub fn assemble(
        palette: Palette,
        javascript: Grammar,
        typescript: Grammar,
        html: Grammar,
    ) -> (registry: Option<Registry>)
        ensures
            registry is Some <==> {
                &&& javascript.language == SourceLanguage::JavaScript
                &&& typescript.language == SourceLanguage::TypeScript
                &&& html.language == SourceLanguage::Html
            },
            registry matches Some(r) ==> {
                &&& r.palette_view() == palette@
                &&& r.grammar(SourceLanguage::JavaScript) == with_names(javascript, palette@.names)
                &&& r.grammar(SourceLanguage::TypeScript) == with_names(typescript, palette@.names)
                &&& r.grammar(SourceLanguage::Html) == with_names(html, palette@.names)
            },
    {
        if javascript.language == SourceLanguage::JavaScript && typescript.language
            == SourceLanguage::TypeScript && html.language == SourceLanguage::Html {
            let names = palette.names();
            assert(names_view(names@) =~= palette@.names);
            let javascript = reconfigure(javascript, &names);
            let typescript = reconfigure(typescript, &names);
            let html = reconfigure(html, &names);
            Some(Registry { palette, javascript, typescript, html })
        } else {
            None
        }
    }

    /// The palette.
    pub fn palette(&self) -> (palette: &Palette)
        ensures
            palette@ == self.palette_view(),
    {
        &self.palette
    }

    /// The grammar of `language`.
    pub fn grammar_of(&self, language: SourceLanguage) -> (grammar: &Grammar)
        ensures
            *grammar == self.grammar(language),
            grammar.language == language,
            configured_with(*grammar, self.palette_view().names),
    {
        proof {
            use_type_invariant(self);
        }
        match language {
            SourceLanguage::JavaScript => &self.javascript,
            SourceLanguage::TypeScript => &self.typescript,
            SourceLanguage::Html => &self.html,
        }
    }

    /// The grammar registered under the name `language`. A name that
    /// nothing is registered under gets the grammar of JavaScript.
    pub fn get_configuration(&self, language: &str) -> (grammar: &Grammar)
        ensures
            *grammar == self.grammar(language_named(language@)),
            grammar.language == language_named(language@),
            configured_with(*grammar, self.palette_view().names),
    {
        self.grammar_of(SourceLanguage::from_name(language))
    }
}

} // verus!
