use code_editor::cache::{RunCache, MAX_LIMIT};
use code_editor::event::HighlightEvent;
use code_editor::grammar::{Grammar, Registry, SourceLanguage};
use code_editor::style::{style_runs, FontFamily, StyledRun};
use code_editor::syntax_highlighter::{highlight, highlight_fresh, SyntaxHighlighter};
use code_editor::tokenizer::tokenize;

fn highlighter(limit: usize) -> SyntaxHighlighter {
    SyntaxHighlighter::new(Registry::new(), limit).unwrap()
}

fn counts(h: &SyntaxHighlighter) -> (u64, u64, usize) {
    (h.cache().hits(), h.cache().misses(), h.cache().len())
}

fn slot(registry: &Registry, name: &str) -> usize {
    registry.palette().names().iter().position(|n| *n == name).unwrap()
}

fn assert_tiles(runs: &[StyledRun], len: usize) {
    let mut at = 0;
    for r in runs {
        assert_eq!(r.start, at);
        assert!(r.start < r.end);
        at = r.end;
    }
    assert_eq!(at, len);
}

fn rendered(text: &str, runs: &[StyledRun]) -> String {
    let mut out = String::new();
    for r in runs {
        out.push_str(&text[r.start..r.end]);
    }
    out
}

fn run_of<'a>(runs: &'a [StyledRun], text: &str, piece: &str) -> &'a StyledRun {
    let start = text.find(piece).unwrap();
    runs.iter()
        .find(|r| r.start == start && r.end == start + piece.len())
        .unwrap_or_else(|| panic!("no run for {piece:?} in {runs:?}"))
}

#[test]
fn every_grammar_loads() {
    let registry = Registry::new();
    for language in [SourceLanguage::JavaScript, SourceLanguage::TypeScript, SourceLanguage::Html] {
        let grammar = registry.grammar_of(language);
        assert_eq!(grammar.language, language);
        assert!(grammar.configuration.is_some(), "{language:?}");
    }
}

#[test]
fn a_grammar_without_configuration_leaves_the_text_unstyled() {
    let registry = Registry::new();
    let grammar = Grammar { language: SourceLanguage::Html, configuration: None };
    let text = "<p>hi</p>";
    let events = tokenize(&grammar, text.as_bytes());
    assert!(events.is_empty());
    let runs = style_runs(registry.palette(), text.len(), &events);
    assert_eq!(
        runs,
        vec![StyledRun {
            start: 0,
            end: text.len(),
            color: registry.palette().fallback(),
            font: FontFamily::Monospace,
        }]
    );
}

#[test]
fn tokenizer_reports_javascript_events_in_source_order() {
    let registry = Registry::new();
    let grammar = registry.grammar_of(SourceLanguage::JavaScript);
    let events = tokenize(grammar, b"const x = 1;");
    let keyword = slot(&registry, "keyword");
    let variable = slot(&registry, "variable");
    let operator = slot(&registry, "operator");
    let delimiter = slot(&registry, "punctuation.delimiter");
    let number = slot(&registry, "number");
    assert_eq!(
        events,
        vec![
            HighlightEvent::CategoryStart { index: keyword },
            HighlightEvent::SourceRange { start: 0, end: 5 },
            HighlightEvent::CategoryEnd,
            HighlightEvent::SourceRange { start: 5, end: 6 },
            HighlightEvent::CategoryStart { index: variable },
            HighlightEvent::SourceRange { start: 6, end: 7 },
            HighlightEvent::CategoryEnd,
            HighlightEvent::SourceRange { start: 7, end: 8 },
            HighlightEvent::CategoryStart { index: operator },
            HighlightEvent::SourceRange { start: 8, end: 9 },
            HighlightEvent::CategoryEnd,
            HighlightEvent::SourceRange { start: 9, end: 10 },
            HighlightEvent::CategoryStart { index: number },
            HighlightEvent::SourceRange { start: 10, end: 11 },
            HighlightEvent::CategoryEnd,
            HighlightEvent::CategoryStart { index: delimiter },
            HighlightEvent::SourceRange { start: 11, end: 12 },
            HighlightEvent::CategoryEnd,
        ]
    );
}

#[test]
fn const_declaration_is_styled_piece_by_piece() {
    let mut h = highlighter(8);
    let text = "const x = 1;";
    let runs = highlight(&mut h, text.to_string());
    let registry = h.registry();
    let palette = registry.palette();
    let color_of = |name: &str| palette.color_at(slot(registry, name));

    assert_eq!(run_of(&runs, text, "const").color, color_of("keyword"));
    assert_eq!(run_of(&runs, text, "x").color, color_of("variable"));
    assert_eq!(run_of(&runs, text, "=").color, color_of("operator"));
    assert_eq!(run_of(&runs, text, ";").color, color_of("punctuation.delimiter"));
    // The literal has the colour of constants.
    assert_eq!(run_of(&runs, text, "1").color, color_of("constant"));
    assert_eq!(run_of(&runs, text, "1").color, color_of("number"));
    assert_eq!(
        run_of(&runs, text, "1").color,
        code_editor::color::Rgba { r: 0x56, g: 0x9c, b: 0xd6, a: 255 }
    );
    assert_ne!(run_of(&runs, text, "1").color, palette.fallback());

    let starts: Vec<usize> = runs.iter().map(|r| r.start).collect();
    assert_eq!(starts, vec![0, 5, 6, 7, 8, 9, 10, 11]);
    assert!(runs.iter().all(|r| r.font == FontFamily::Monospace));
    assert_tiles(&runs, text.len());
    assert_eq!(rendered(text, &runs), text);
}

#[test]
fn strings_comments_and_calls_get_their_categories() {
    let registry = Registry::new();
    let text = "// note\nlog(\"hi\");";
    let runs = highlight_fresh(&registry, text);
    let palette = registry.palette();
    let color_of = |name: &str| palette.color_at(slot(&registry, name));
    assert_eq!(run_of(&runs, text, "// note").color, color_of("comment"));
    assert_eq!(run_of(&runs, text, "log").color, color_of("function"));
    assert_eq!(run_of(&runs, text, "\"hi\"").color, color_of("string"));
    assert_eq!(run_of(&runs, text, "(").color, color_of("punctuation.bracket"));
    assert_tiles(&runs, text.len());
}

#[test]
fn runs_spell_the_text_again() {
    let registry = Registry::new();
    let texts = [
        "",
        " ",
        "let a = [1, 2, 3].map((n) => n * 2);\n",
        "function f(x) {\n  return `t${x}`; // done\n}\n",
        "caf\u{e9} = '\u{1F980}' + \"\u{4e2d}\u{6587}\";",
    ];
    for text in texts {
        let runs = highlight_fresh(&registry, text);
        assert_tiles(&runs, text.len());
        assert_eq!(rendered(text, &runs), text);
        assert_eq!(runs.is_empty(), text.is_empty());
    }
}

#[test]
fn malformed_source_is_still_highlighted() {
    let mut h = highlighter(8);
    for text in ["\"abc", "function (", "}}}} const", "/* never closed"] {
        let runs = highlight(&mut h, text.to_string());
        assert!(!runs.is_empty());
        assert_tiles(&runs, text.len());
        assert_eq!(rendered(text, &runs), text);
    }
}

#[test]
fn highlighting_twice_gives_equal_runs() {
    let mut h = highlighter(8);
    let text = "if (a) { b(); } else { c = 'd'; }";
    let first = highlight(&mut h, text.to_string());
    let second = highlight(&mut h, text.to_string());
    assert_eq!(first, second);
    assert_eq!(first, highlight_fresh(h.registry(), text));
}

#[test]
fn a_repeated_text_comes_from_the_cache() {
    let mut h = highlighter(8);
    assert_eq!(counts(&h), (0, 0, 0));
    let first = highlight(&mut h, "var v;".to_string());
    assert_eq!(counts(&h), (0, 1, 1));
    let second = highlight(&mut h, "var v;".to_string());
    assert_eq!(counts(&h), (1, 1, 1));
    assert_eq!(first, second);
}

#[test]
fn distinct_texts_have_distinct_entries() {
    let mut h = highlighter(8);
    let one = highlight(&mut h, "a".to_string());
    let two = highlight(&mut h, "a ".to_string());
    assert_eq!(counts(&h), (0, 2, 2));
    assert_ne!(one, two);
    assert_eq!(highlight(&mut h, "a".to_string()), one);
    assert_eq!(highlight(&mut h, "a ".to_string()), two);
    assert_eq!(counts(&h), (2, 2, 2));
}

#[test]
fn the_text_used_longest_ago_leaves_a_full_cache() {
    let mut h = highlighter(2);
    highlight(&mut h, "a".to_string());
    highlight(&mut h, "b".to_string());
    // "a" is used again, so "b" is the one used longest ago.
    highlight(&mut h, "a".to_string());
    highlight(&mut h, "c".to_string());
    assert_eq!(counts(&h), (1, 3, 2));
    highlight(&mut h, "a".to_string());
    assert_eq!(counts(&h), (2, 3, 2));
    highlight(&mut h, "b".to_string());
    assert_eq!(counts(&h), (2, 4, 2));
}

#[test]
fn a_cache_of_one_keeps_the_last_text() {
    let mut h = highlighter(1);
    highlight(&mut h, "x".to_string());
    highlight(&mut h, "x".to_string());
    assert_eq!(counts(&h), (1, 1, 1));
    highlight(&mut h, "y".to_string());
    highlight(&mut h, "x".to_string());
    assert_eq!(counts(&h), (1, 3, 1));
}

#[test]
fn counts_can_be_reset_without_losing_entries() {
    let mut h = highlighter(4);
    let first = highlight(&mut h, "let q;".to_string());
    highlight(&mut h, "let q;".to_string());
    assert_eq!(counts(&h), (1, 1, 1));
    h.reset_counts();
    assert_eq!(counts(&h), (0, 0, 1));
    assert_eq!(highlight(&mut h, "let q;".to_string()), first);
    assert_eq!(counts(&h), (1, 0, 1));
}

#[test]
fn a_category_inside_another_gives_way_to_the_outer_one_again() {
    let registry = Registry::new();
    let text = "s = `a${b}c`;";
    let runs = highlight_fresh(&registry, text);
    let palette = registry.palette();
    let string = palette.color_at(slot(&registry, "string"));
    assert_eq!(run_of(&runs, text, "`a").color, string);
    assert_eq!(run_of(&runs, text, "b").color, palette.color_at(slot(&registry, "variable")));
    // After the embedded expression the text is string again.
    assert_eq!(run_of(&runs, text, "c`").color, string);
    assert_tiles(&runs, text.len());
}

#[test]
fn a_highlighter_needs_a_limit_in_range() {
    assert!(SyntaxHighlighter::new(Registry::new(), 0).is_none());
    assert!(SyntaxHighlighter::new(Registry::new(), MAX_LIMIT + 1).is_none());
    assert!(SyntaxHighlighter::new(Registry::new(), usize::MAX).is_none());
    let h = SyntaxHighlighter::new(Registry::new(), 100_000).unwrap();
    assert_eq!(counts(&h), (0, 0, 0));
}

#[test]
fn a_cache_on_its_own_counts_from_zero() {
    let mut cache = RunCache::new(3).unwrap();
    assert_eq!((cache.hits(), cache.misses(), cache.len()), (0, 0, 0));
    cache.reset_counts();
    assert_eq!((cache.hits(), cache.misses(), cache.len()), (0, 0, 0));
}

#[test]
fn a_cache_needs_a_limit_in_range() {
    assert!(RunCache::new(0).is_none());
    assert!(RunCache::new(1).is_some());
    assert!(RunCache::new(100_000).is_some());
    assert_eq!(MAX_LIMIT, usize::MAX / 256);
    assert!(RunCache::new(MAX_LIMIT + 1).is_none());
    assert!(RunCache::new(usize::MAX).is_none());
}

#[test]
fn an_unknown_language_name_selects_javascript() {
    let registry = Registry::new();
    assert_eq!(registry.get_configuration("html").language, SourceLanguage::Html);
    assert_eq!(registry.get_configuration("typescript").language, SourceLanguage::TypeScript);
    assert_eq!(registry.get_configuration("javascript").language, SourceLanguage::JavaScript);
    assert_eq!(registry.get_configuration("rust").language, SourceLanguage::JavaScript);
    assert_eq!(registry.get_configuration("").language, SourceLanguage::JavaScript);
    assert_eq!(registry.get_configuration("HTML").language, SourceLanguage::JavaScript);
}

#[test]
fn language_names_round_trip() {
    for language in [SourceLanguage::JavaScript, SourceLanguage::TypeScript, SourceLanguage::Html] {
        assert_eq!(SourceLanguage::from_name(language.name()), language);
    }
    assert_eq!(SourceLanguage::Html.name(), "html");
    assert_eq!(SourceLanguage::TypeScript.name(), "typescript");
    assert_eq!(SourceLanguage::JavaScript.name(), "javascript");
}

#[test]
fn other_languages_share_the_palette_indices() {
    let registry = Registry::new();
    let palette = registry.palette();

    let html = "<p class=\"x\">hi</p>";
    let events = tokenize(registry.get_configuration("html"), html.as_bytes());
    let runs = style_runs(palette, html.len(), &events);
    assert_tiles(&runs, html.len());
    assert_eq!(run_of(&runs, html, "p").color, palette.color_at(slot(&registry, "tag")));
    assert_eq!(run_of(&runs, html, "class").color, palette.color_at(slot(&registry, "attribute")));

    let ts = "let n: number = 1;";
    let events = tokenize(registry.get_configuration("typescript"), ts.as_bytes());
    let runs = style_runs(palette, ts.len(), &events);
    assert_tiles(&runs, ts.len());
    assert_eq!(run_of(&runs, ts, "number").color, palette.color_at(slot(&registry, "type.builtin")));
}

#[test]
fn tokenizer_events_cover_the_source() {
    let registry = Registry::new();
    let text = "const s = `a${b}c`; /* x */ f(1, 'two');";
    let events = tokenize(registry.grammar_of(SourceLanguage::JavaScript), text.as_bytes());
    let mut at = 0;
    let mut depth = 0usize;
    for event in &events {
        match *event {
            HighlightEvent::SourceRange { start, end } => {
                assert_eq!(start, at);
                assert!(start < end);
                at = end;
            }
            HighlightEvent::CategoryStart { index } => {
                assert!(index < registry.palette().len());
                depth += 1;
            }
            HighlightEvent::CategoryEnd => {
                assert!(depth > 0);
                depth -= 1;
            }
        }
    }
    assert_eq!(at, text.len());
    assert_eq!(depth, 0);
}
