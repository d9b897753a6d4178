use code_editor::event::HighlightEvent;
use code_editor::grammar::{Grammar, Registry, SourceLanguage};
use code_editor::style::{FontFamily, StyledRun};
use code_editor::syntax_highlighter::{highlight, SyntaxHighlighter};
use code_editor::palette::Palette;
use code_editor::tokenizer::tokenize;

#[test]
fn queries_that_do_not_compile_leave_the_grammar_without_configuration() {
    let palette = Palette::standard();
    let grammar = Grammar::compile(
        SourceLanguage::JavaScript,
        tree_sitter_javascript::language(),
        "(no_such_node) @keyword",
        "",
        "",
        &palette,
    );
    assert_eq!(grammar.language, SourceLanguage::JavaScript);
    assert!(grammar.configuration.is_none());
    assert!(tokenize(&grammar, b"let a;").is_empty());
}

#[test]
fn a_compiled_grammar_reports_categories_by_palette_index() {
    let palette = Palette::standard();
    let grammar = Grammar::compile(
        SourceLanguage::JavaScript,
        tree_sitter_javascript::language(),
        "(number) @constant",
        "",
        "",
        &palette,
    );
    assert!(grammar.configuration.is_some());
    let constant = palette.names().iter().position(|n| *n == "constant").unwrap();
    assert_eq!(
        tokenize(&grammar, b"a = 12;"),
        vec![
            HighlightEvent::SourceRange { start: 0, end: 4 },
            HighlightEvent::CategoryStart { index: constant },
            HighlightEvent::SourceRange { start: 4, end: 6 },
            HighlightEvent::CategoryEnd,
            HighlightEvent::SourceRange { start: 6, end: 7 },
        ]
    );
}

#[test]
fn a_category_that_the_palette_lacks_is_not_reported() {
    let palette = Palette::standard();
    let grammar = Grammar::compile(
        SourceLanguage::JavaScript,
        tree_sitter_javascript::language(),
        "(number) @embedded",
        "",
        "",
        &palette,
    );
    assert!(grammar.configuration.is_some());
    assert_eq!(
        tokenize(&grammar, b"a = 12;"),
        vec![HighlightEvent::SourceRange { start: 0, end: 7 }]
    );
}

#[test]
fn loaded_grammars_stand_under_their_language() {
    let palette = Palette::standard();
    for language in [SourceLanguage::JavaScript, SourceLanguage::TypeScript, SourceLanguage::Html] {
        let grammar = Grammar::load(language, &palette);
        assert_eq!(grammar.language, language);
        assert!(grammar.configuration.is_some());
    }
}

#[test]
fn a_registry_needs_each_grammar_under_its_language() {
    let palette = Palette::standard();
    let javascript = Grammar::load(SourceLanguage::JavaScript, &palette);
    let typescript = Grammar::load(SourceLanguage::TypeScript, &palette);
    let html = Grammar::load(SourceLanguage::Html, &palette);
    assert!(Registry::assemble(Palette::standard(), html, typescript, javascript).is_none());

    let javascript = Grammar::load(SourceLanguage::JavaScript, &palette);
    let typescript = Grammar::load(SourceLanguage::TypeScript, &palette);
    let html = Grammar::load(SourceLanguage::Html, &palette);
    let registry = Registry::assemble(palette, javascript, typescript, html).unwrap();
    assert_eq!(registry.get_configuration("html").language, SourceLanguage::Html);
    assert_eq!(registry.palette().len(), 20);
}

#[test]
fn a_language_whose_grammar_did_not_load_is_shown_unstyled() {
    let palette = Palette::standard();
    let javascript = Grammar { language: SourceLanguage::JavaScript, configuration: None };
    let typescript = Grammar::load(SourceLanguage::TypeScript, &palette);
    let html = Grammar::load(SourceLanguage::Html, &palette);
    let registry = Registry::assemble(palette, javascript, typescript, html).unwrap();
    let mut highlighter = SyntaxHighlighter::new(registry, 4).unwrap();
    let text = "const x = 1;";
    let runs = highlight(&mut highlighter, text.to_string());
    let fallback = highlighter.registry().palette().fallback();
    assert_eq!(
        runs,
        vec![StyledRun { start: 0, end: text.len(), color: fallback, font: FontFamily::Monospace }]
    );
    assert_eq!(highlight(&mut highlighter, String::new()), Vec::new());
}

#[test]
fn an_assembled_registry_configures_its_grammars_with_its_palette() {
    // The grammar is compiled with a palette, and the registry configures it
    // with its own: the category that it reports is a place in that one.
    let palette = Palette::standard();
    let javascript = Grammar::compile(
        SourceLanguage::JavaScript,
        tree_sitter_javascript::language(),
        "(number) @number",
        "",
        "",
        &palette,
    );
    let typescript = Grammar::load(SourceLanguage::TypeScript, &palette);
    let html = Grammar::load(SourceLanguage::Html, &palette);
    let registry = Registry::assemble(palette, javascript, typescript, html).unwrap();
    let number = registry.palette().names().iter().position(|n| *n == "number").unwrap();
    assert_eq!(
        tokenize(registry.grammar_of(SourceLanguage::JavaScript), b"a = 12;"),
        vec![
            HighlightEvent::SourceRange { start: 0, end: 4 },
            HighlightEvent::CategoryStart { index: number },
            HighlightEvent::SourceRange { start: 4, end: 6 },
            HighlightEvent::CategoryEnd,
            HighlightEvent::SourceRange { start: 6, end: 7 },
        ]
    );
}

#[test]
fn a_loaded_javascript_grammar_reports_numbers() {
    let palette = Palette::standard();
    let number = palette.names().iter().position(|n| *n == "number").unwrap();
    let grammar = Grammar::load(SourceLanguage::JavaScript, &palette);
    let events = tokenize(&grammar, b"1");
    assert_eq!(
        events,
        vec![
            HighlightEvent::CategoryStart { index: number },
            HighlightEvent::SourceRange { start: 0, end: 1 },
            HighlightEvent::CategoryEnd,
        ]
    );
}
