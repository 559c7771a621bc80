use cargo_normalize::comments::{
    is_item_declaration_line, is_module_doc_comment, is_plain_line_comment,
    promote_leading_item_comments, restore_promoted_comment_style,
};
use cargo_normalize::config::{
    prepare_cli_args, Cli, ItemOrder, MoveFeature, MoveSelection, NormalizeConfig,
};
use cargo_normalize::engine::{decide_change, Processor, RunAction, RunEvent, RunState};
use cargo_normalize::files::{is_rust_source_name, is_skipped_dir_name};
use cargo_normalize::model::ItemSegment;
use cargo_normalize::ordering::reorder_items;
use cargo_normalize::render::render_items;
use cargo_normalize::report::diff_report;
use cargo_normalize::spacing::{
    differs_only_by_whitespace, normalize_crate_attribute_layout, normalize_function_spacing,
    strip_whitespace_and_trailing_commas,
};

fn chars(s: &str) -> Vec<char> {
    s.chars().collect()
}

fn strings(v: &[&str]) -> Vec<String> {
    v.iter().map(|s| s.to_string()).collect()
}

fn segment(src: &str) -> ItemSegment {
    ItemSegment::from_source(src).expect("valid Rust item")
}

fn all() -> MoveSelection {
    MoveSelection { all: true, features: Vec::new() }
}

fn nothing() -> MoveSelection {
    MoveSelection { all: false, features: Vec::new() }
}

fn sources(items: &[ItemSegment]) -> Vec<String> {
    items.iter().map(|s| s.source.clone()).collect()
}

// ---- comments ----

#[test]
fn promotes_comment_above_item_and_restores_it() {
    let original = "// about f\nfn f() {}\n";
    let promoted = promote_leading_item_comments(original);
    assert_eq!(promoted, "///__cargo_normalize_promoted__ about f\nfn f() {}\n");
    assert_eq!(restore_promoted_comment_style(&promoted), original);
}

#[test]
fn promotes_whole_block_with_blank_lines_and_indentation() {
    let original = "    // one\n\n    // two\n\n    pub fn g() {}";
    let promoted = promote_leading_item_comments(original);
    assert_eq!(
        promoted,
        "    ///__cargo_normalize_promoted__ one\n\n    ///__cargo_normalize_promoted__ two\n\n    pub fn g() {}"
    );
    assert_eq!(restore_promoted_comment_style(&promoted), original);
}

#[test]
fn leaves_comment_not_followed_by_item() {
    let original = "// note\nlet x = 1;\n// trailing\n";
    assert_eq!(promote_leading_item_comments(original), original);
}

#[test]
fn leaves_doc_comments_alone() {
    let original = "/// doc\n//! inner\nfn f() {}\n";
    assert_eq!(promote_leading_item_comments(original), original);
}

#[test]
fn restore_rewrites_only_marked_lines() {
    let rendered = "  ///__cargo_normalize_promoted__ x\n/// kept\nfn f() {}";
    assert_eq!(restore_promoted_comment_style(rendered), "  // x\n/// kept\nfn f() {}");
}

#[test]
fn crlf_text_does_not_round_trip() {
    let original = "// c\r\nfn f() {}\r\n";
    let promoted = promote_leading_item_comments(original);
    assert_ne!(restore_promoted_comment_style(&promoted), original);
}

#[test]
fn classifies_comment_lines() {
    assert!(is_plain_line_comment(&chars("// x")));
    assert!(!is_plain_line_comment(&chars("/// x")));
    assert!(!is_plain_line_comment(&chars("//! x")));
    assert!(!is_plain_line_comment(&chars("/ x")));
    assert!(is_module_doc_comment(&chars("//! x")));
    assert!(!is_module_doc_comment(&chars("/*! x */")));
    assert!(!is_module_doc_comment(&chars("/// x")));
}

#[test]
fn recognizes_item_declaration_lines() {
    for line in [
        "fn a()", "pub fn a()", "pub(crate) fn a()", "pub(super) fn a()", "pub(in crate) fn a()",
        "unsafe fn a()", "pub unsafe fn a()", "struct A", "pub struct A", "enum A", "pub enum A",
        "union A", "pub union A", "impl A", "unsafe impl A", "trait A", "pub trait A", "mod a",
        "pub mod a", "use a", "pub use a", "const A", "pub const A", "static A", "pub static A",
    ] {
        assert!(is_item_declaration_line(&chars(line)), "{line}");
    }
    for line in ["#[inline]", "macro_rules! m", "type A = u8;", "let x", "pub type A = u8;"] {
        assert!(!is_item_declaration_line(&chars(line)), "{line}");
    }
}

// ---- spacing ----

#[test]
fn inserts_blank_line_between_top_level_functions() {
    assert_eq!(
        normalize_function_spacing("fn a() {\n}\nfn b() {}"),
        "fn a() {\n}\n\nfn b() {}"
    );
    assert_eq!(
        normalize_function_spacing("fn a() {\n}\npub async fn b() {}\n"),
        "fn a() {\n}\n\npub async fn b() {}\n"
    );
}

#[test]
fn leaves_nested_and_separated_functions() {
    let text = "impl A {\n    fn a() {\n    }\n    fn b() {}\n}\n\nfn c() {}\n";
    assert_eq!(normalize_function_spacing(text), text);
}

#[test]
fn function_spacing_drops_trailing_newlines_without_final_newline() {
    assert_eq!(normalize_function_spacing("fn a() {}\n\n\nx"), "fn a() {}\n\n\nx");
    assert_eq!(normalize_function_spacing(""), "");
}

#[test]
fn function_spacing_is_stable_and_adds_only_empty_lines() {
    let text = "fn a() {\n}\nfn b() {\n}\n\n\nfn c() {}\nstruct S;\n}\npub fn d() {}";
    let once = normalize_function_spacing(text);
    assert_eq!(once, "fn a() {\n}\n\nfn b() {\n}\n\n\nfn c() {}\nstruct S;\n}\n\npub fn d() {}");
    assert_eq!(normalize_function_spacing(&once), once);
    let non_empty = |t: &str| t.lines().filter(|l| !l.is_empty()).map(str::to_owned).collect::<Vec<_>>();
    assert_eq!(non_empty(&once), non_empty(text));
    assert_eq!(once.ends_with('\n'), text.ends_with('\n'));
}

#[test]
fn strips_whitespace_and_closing_trailing_commas() {
    let out: String = strip_whitespace_and_trailing_commas(&chars("f(a, b,\n) [1, ] {x,}, y"))
        .into_iter()
        .collect();
    assert_eq!(out, "f(a,b)[1]{x},y");
}

#[test]
fn whitespace_equivalence_examples() {
    assert!(differs_only_by_whitespace("f(a, b,)", "f(a,b)"));
    assert!(differs_only_by_whitespace("a\n\tb", "ab"));
    assert!(!differs_only_by_whitespace("a, b", "a b"));
    assert!(!differs_only_by_whitespace("x + 1", "x - 1"));
}

#[test]
fn splits_crate_attributes_onto_lines() {
    assert_eq!(
        normalize_crate_attribute_layout("#![a] #![b]#![c]\n"),
        "#![a]\n#![b]\n#![c]\n"
    );
    assert_eq!(normalize_crate_attribute_layout("#![a]\n"), "#![a]\n");
}

// ---- configuration and command line ----

#[test]
fn default_config_order_and_flags() {
    let config = NormalizeConfig::default();
    assert_eq!(
        config.order,
        vec![
            ItemOrder::Attributes,
            ItemOrder::Mods,
            ItemOrder::Imports,
            ItemOrder::Macros,
            ItemOrder::Constants,
            ItemOrder::Types,
            ItemOrder::Enums,
            ItemOrder::Structs,
            ItemOrder::Impls,
            ItemOrder::Traits,
            ItemOrder::Foreign,
            ItemOrder::Functions,
            ItemOrder::Tests,
        ]
    );
    assert!(config.compact_use_block && config.compact_const_block && config.compact_mod_block);
    assert!(!config.relative_path_comment);
    assert!(config.mods_before_macros());
    assert!(config.constants_before_types());
}

#[test]
fn rank_uses_first_position_or_default() {
    let config = NormalizeConfig {
        order: vec![ItemOrder::Macros, ItemOrder::Types, ItemOrder::Macros],
        compact_use_block: false,
        compact_const_block: false,
        compact_mod_block: false,
        relative_path_comment: false,
    };
    assert_eq!(config.rank(ItemOrder::Macros, 9), 0);
    assert_eq!(config.rank(ItemOrder::Types, 9), 1);
    assert_eq!(config.rank(ItemOrder::Mods, 9), 9);
    assert!(!config.mods_before_macros());
    assert!(!config.constants_before_types());
}

#[test]
fn cli_defaults_to_check_of_everything() {
    let cli = Cli { check: false, move_feature: Vec::new(), all: false, path: ".".to_string() };
    assert!(cli.is_effective_check());
    let selection = cli.effective_move_selection();
    assert!(selection.all);
    assert!(selection.features.is_empty());
}

#[test]
fn cli_with_features_moves_only_those() {
    let cli = Cli {
        check: false,
        move_feature: vec![MoveFeature::Mods, MoveFeature::Tests],
        all: false,
        path: "src".to_string(),
    };
    assert!(!cli.is_effective_check());
    let selection = cli.effective_move_selection();
    assert!(!selection.all);
    assert_eq!(selection.features, vec![MoveFeature::Mods, MoveFeature::Tests]);
    let all = Cli { check: true, move_feature: Vec::new(), all: true, path: ".".to_string() };
    assert!(all.is_effective_check());
    assert!(all.effective_move_selection().all);
}

#[test]
fn prepares_cargo_subcommand_arguments() {
    assert_eq!(
        prepare_cli_args(strings(&["cargo-normalize", "normalize", "--check"])),
        strings(&["cargo-normalize", "--check"])
    );
    assert_eq!(
        prepare_cli_args(strings(&["cargo-normalize", "help"])),
        strings(&["cargo-normalize", "--help"])
    );
    assert_eq!(
        prepare_cli_args(strings(&["cargo-normalize", "normalize", "help"])),
        strings(&["cargo-normalize", "--help"])
    );
    assert_eq!(
        prepare_cli_args(strings(&["cargo-normalize", "--all"])),
        strings(&["cargo-normalize", "--all"])
    );
    assert_eq!(prepare_cli_args(strings(&["cargo-normalize"])), strings(&["cargo-normalize"]));
}

#[test]
fn recognizes_rust_files_and_skipped_directories() {
    assert!(is_rust_source_name("main.rs"));
    assert!(is_rust_source_name("..rs"));
    assert!(!is_rust_source_name(".rs"));
    assert!(!is_rust_source_name("main.rsx"));
    assert!(!is_rust_source_name("main.RS"));
    assert!(!is_rust_source_name("rs"));
    assert!(is_skipped_dir_name("target"));
    assert!(is_skipped_dir_name(".git"));
    assert!(!is_skipped_dir_name("src"));
    assert!(!is_skipped_dir_name("targets"));
}

// ---- ordering ----

#[test]
fn reordering_keeps_every_item() {
    let items = vec![
        segment("fn z() {}"),
        segment("#[cfg(test)]\nmod tests {}"),
        segment("struct S;"),
        segment("impl S { fn new() -> Self { S } }"),
        segment("use std::fmt;"),
        segment("const N: u8 = 1;"),
        segment("enum E { A }"),
        segment("trait T {}"),
        segment("type A = u8;"),
        segment("mod m;"),
        segment("macro_rules! mm { () => {}; }"),
        segment("extern \"C\" { fn c(); }"),
    ];
    let before = sources(&items);
    let reordered = reorder_items(items, &NormalizeConfig::default(), &all());
    let mut after = sources(&reordered);
    let mut expected = before.clone();
    after.sort();
    expected.sort();
    assert_eq!(after, expected);
}

#[test]
fn full_reorder_puts_imports_first_and_tests_last() {
    let items = vec![
        segment("#[cfg(test)]\nmod tests {}"),
        segment("fn z() {}"),
        segment("struct S;"),
        segment("use std::fmt;"),
        segment("impl S { fn new() -> Self { S } }"),
        segment("mod m;"),
    ];
    let reordered = reorder_items(items, &NormalizeConfig::default(), &all());
    assert_eq!(
        sources(&reordered),
        strings(&[
            "use std::fmt;",
            "mod m;",
            "struct S;",
            "impl S { fn new() -> Self { S } }",
            "fn z() {}",
            "#[cfg(test)]\nmod tests {}",
        ])
    );
}

#[test]
fn empty_selection_leaves_items_in_place() {
    let items = vec![segment("fn z() {}"), segment("use std::fmt;"), segment("mod m;")];
    let reordered = reorder_items(items, &NormalizeConfig::default(), &nothing());
    assert_eq!(sources(&reordered), strings(&["fn z() {}", "use std::fmt;", "mod m;"]));
}

#[test]
fn test_feature_alone_reorders_nothing() {
    let items = vec![
        segment("#[cfg(test)]\nmod tests {}"),
        segment("fn z() {}"),
        segment("use std::fmt;"),
    ];
    let selection = MoveSelection { all: false, features: vec![MoveFeature::Tests] };
    let reordered = reorder_items(items, &NormalizeConfig::default(), &selection);
    assert_eq!(
        sources(&reordered),
        strings(&["#[cfg(test)]\nmod tests {}", "fn z() {}", "use std::fmt;"])
    );
}

#[test]
fn functions_feature_reorders_only_its_slots() {
    let items = vec![
        segment("fn z() {}"),
        segment("use std::fmt;"),
        segment("trait T {}"),
        segment("mod m;"),
    ];
    let selection = MoveSelection { all: false, features: vec![MoveFeature::Functions] };
    let reordered = reorder_items(items, &NormalizeConfig::default(), &selection);
    assert_eq!(
        sources(&reordered),
        strings(&["trait T {}", "use std::fmt;", "fn z() {}", "mod m;"])
    );
}

#[test]
fn full_reorder_is_stable() {
    let make = || {
        vec![
            segment("impl B { fn b() {} }"),
            segment("fn z() {}"),
            segment("struct A;"),
            segment("impl A { fn a() {} }"),
            segment("enum E { X }"),
            segment("struct B;"),
            segment("impl A { fn a2() {} }"),
            segment("impl std::fmt::Debug for A { fn fmt(&self, f: &mut std::fmt::Formatter<'_>) -> std::fmt::Result { Ok(()) } }"),
            segment("use std::fmt;"),
        ]
    };
    let config = NormalizeConfig {
        order: vec![
            ItemOrder::Imports,
            ItemOrder::Structs,
            ItemOrder::Impls,
            ItemOrder::Enums,
            ItemOrder::Functions,
        ],
        ..NormalizeConfig::default()
    };
    let once = reorder_items(make(), &config, &all());
    let first = sources(&once);
    let twice = reorder_items(once, &config, &all());
    assert_eq!(sources(&twice), first);
    assert_eq!(
        first,
        strings(&[
            "use std::fmt;",
            "struct A;",
            "impl A { fn a() {} }",
            "impl A { fn a2() {} }",
            "struct B;",
            "impl B { fn b() {} }",
            "impl std::fmt::Debug for A { fn fmt(&self, f: &mut std::fmt::Formatter<'_>) -> std::fmt::Result { Ok(()) } }",
            "enum E { X }",
            "fn z() {}",
        ])
    );
    let default_once = reorder_items(make(), &NormalizeConfig::default(), &all());
    let default_first = sources(&default_once);
    let default_twice = reorder_items(default_once, &NormalizeConfig::default(), &all());
    assert_eq!(sources(&default_twice), default_first);
}

#[test]
fn normalized_source_normalizes_to_itself() {
    let processor = Processor::new(false, all(), NormalizeConfig::default());
    let original = "fn f() {}\n\nstruct S;\n\nuse a;\n\nimpl S {\n    fn new() -> Self {\n        S\n    }\n}\n";
    let normalized = processor
        .normalize_source("a.rs", None, original)
        .unwrap()
        .expect("the order changes");
    assert_eq!(processor.normalize_source("a.rs", None, &normalized), Ok(None));
}

#[test]
fn selected_features_are_stable() {
    let make = || {
        vec![
            segment("fn z() {}"),
            segment("macro_rules! m { () => {}; }"),
            segment("type T = u8;"),
            segment("trait Tr {}"),
            segment("mod a;"),
            segment("const C: u8 = 1;"),
            segment("enum E { X }"),
            segment("struct S;"),
        ]
    };
    let selection = || MoveSelection {
        all: false,
        features: vec![
            MoveFeature::Functions,
            MoveFeature::Macros,
            MoveFeature::Types,
            MoveFeature::Structs,
            MoveFeature::Mods,
        ],
    };
    let config = NormalizeConfig::default();
    let once = reorder_items(make(), &config, &selection());
    let first = sources(&once);
    assert_eq!(
        first,
        strings(&[
            "trait Tr {}",
            "mod a;",
            "const C: u8 = 1;",
            "fn z() {}",
            "macro_rules! m { () => {}; }",
            "type T = u8;",
            "enum E { X }",
            "struct S;",
        ])
    );
    let twice = reorder_items(once, &config, &selection());
    assert_eq!(sources(&twice), first);
}

#[test]
fn imports_feature_moves_use_items_to_the_top() {
    let items = vec![segment("fn f() {}"), segment("mod m;"), segment("use std::fmt;")];
    let selection = MoveSelection { all: false, features: vec![MoveFeature::Imports] };
    let reordered = reorder_items(items, &NormalizeConfig::default(), &selection);
    assert_eq!(sources(&reordered), strings(&["use std::fmt;", "fn f() {}", "mod m;"]));
    let again = reorder_items(reordered, &NormalizeConfig::default(), &selection);
    assert_eq!(sources(&again), strings(&["use std::fmt;", "fn f() {}", "mod m;"]));
}

// ---- rendering ----

#[test]
fn renders_relative_path_comment() {
    let config = NormalizeConfig { relative_path_comment: true, ..NormalizeConfig::default() };
    let items = vec![segment("fn f() {}")];
    assert_eq!(render_items(None, &items, &config, Some("src/a.rs")), "// src/a.rs\nfn f() {}\n");
    assert_eq!(
        render_items(None, &items, &config, None),
        "// [RELATIVE_PATH_UNKNOWN]\nfn f() {}\n"
    );
}

#[test]
fn renders_test_modules_last_after_blank_line() {
    let items = vec![segment("#[cfg(test)]\nmod tests {}"), segment("fn f() {}")];
    assert_eq!(
        render_items(None, &items, &NormalizeConfig::default(), None),
        "fn f() {}\n\n#[cfg(test)]\nmod tests {}\n"
    );
}

#[test]
fn compacts_use_and_const_groups() {
    let items = vec![
        segment("use a::b;"),
        segment("use c::d;"),
        segment("const A: u8 = 1;"),
        segment("static B: u8 = 2;"),
        segment("fn f() {}"),
    ];
    assert_eq!(
        render_items(None, &items, &NormalizeConfig::default(), None),
        "use a::b;\nuse c::d;\n\nconst A: u8 = 1;\nstatic B: u8 = 2;\n\nfn f() {}\n"
    );
}

#[test]
fn renders_preamble_before_items() {
    let items = vec![segment("fn f() {}")];
    assert_eq!(
        render_items(Some("#![allow(x)]\n"), &items, &NormalizeConfig::default(), None),
        "#![allow(x)]\n\nfn f() {}\n"
    );
}

#[test]
fn rejects_item_source_that_does_not_parse() {
    assert!(ItemSegment::from_source("fn (").is_err());
    assert!(ItemSegment::from_source("fn f() {}").is_ok());
}

// ---- processing ----

#[test]
fn unchanged_source_is_not_rewritten() {
    let processor = Processor::new(false, all(), NormalizeConfig::default());
    assert_eq!(processor.normalize_source("a.rs", None, "use a;\n\nfn f() {}\n"), Ok(None));
}

#[test]
fn reordered_source_is_returned() {
    let processor = Processor::new(false, all(), NormalizeConfig::default());
    assert_eq!(
        processor.normalize_source("a.rs", None, "fn f() {}\n\nuse a;\n"),
        Ok(Some("use a;\n\nfn f() {}\n".to_string()))
    );
}

#[test]
fn comment_above_item_travels_with_it() {
    let processor = Processor::new(false, all(), NormalizeConfig::default());
    assert_eq!(
        processor.normalize_source("a.rs", None, "fn f() {}\n\n// about S\nstruct S;\n"),
        Ok(Some("// about S\nstruct S;\n\nfn f() {}\n".to_string()))
    );
}

#[test]
fn comment_on_line_after_previous_item_is_kept() {
    let processor = Processor::new(false, all(), NormalizeConfig::default());
    assert_eq!(
        processor.normalize_source("a.rs", None, "fn a() {}\n// c\n#[inline]\nfn f() {}\n"),
        Ok(None)
    );
    assert_eq!(
        processor.normalize_source("a.rs", None, "struct B;\n// about A\n#[derive(Debug)]\nstruct A;\n\nuse x;\n"),
        Ok(Some("use x;\n\nstruct B;\n\n// about A\n#[derive(Debug)]\nstruct A;\n".to_string()))
    );
}

#[test]
fn crate_attribute_that_cannot_be_printed_is_an_error() {
    let processor = Processor::new(false, all(), NormalizeConfig::default());
    assert_eq!(
        processor.normalize_source("a.rs", None, "#![doc = builtin # f()]\nfn f() {}\n"),
        Err("Cannot print the crate attributes of a.rs".to_string())
    );
}

#[test]
fn crate_attributes_with_literal_or_macro_values_are_printed() {
    let processor = Processor::new(false, all(), NormalizeConfig::default());
    assert_eq!(
        processor.normalize_source(
            "a.rs",
            None,
            "#![doc = include_str!(\"x.md\")]\n#![allow(dead_code)]\n#![doc = \"text\"]\n\nfn f() {}\n\nuse a;\n"
        ),
        Ok(Some(
            "#![doc = include_str!(\"x.md\")]\n#![allow(dead_code)]\n//!text\n\nuse a;\n\nfn f() {}\n"
                .to_string()
        ))
    );
}

#[test]
fn parse_failure_names_the_file() {
    let processor = Processor::new(false, all(), NormalizeConfig::default());
    let err = processor.normalize_source("src/bad.rs", None, "fn (").unwrap_err();
    assert!(err.starts_with("Failed to parse src/bad.rs: "), "{err}");
}

#[test]
fn decide_change_ignores_whitespace_only_changes() {
    assert_eq!(decide_change("f(a, b,)", "f(a,b)".to_string()), None);
    assert_eq!(decide_change("x", "x".to_string()), None);
    assert_eq!(decide_change("x", "y".to_string()), Some("y".to_string()));
}

fn step(p: &Processor, s: RunState, e: RunEvent) -> (RunState, RunAction) {
    p.run_step(s, e)
}

#[test]
fn listing_failure_finishes_with_error() {
    let p = Processor::new(false, all(), NormalizeConfig::default());
    let (_, action) = step(&p, RunState::start(), RunEvent::Listed(Err("boom".to_string())));
    match action {
        RunAction::Finish(Err(e)) => assert_eq!(e, "boom"),
        _ => panic!("expected a failed finish"),
    }
}

#[test]
fn write_mode_run_stores_changed_file() {
    let p = Processor::new(false, all(), NormalizeConfig::default());
    let (s, a) = step(&p, RunState::start(), RunEvent::Listed(Ok(strings(&["a.rs"]))));
    assert!(matches!(a, RunAction::Load(ref f) if f == "a.rs"));
    assert!(s.is_awaiting());
    let (s, a) = step(
        &p,
        s,
        RunEvent::Loaded { contents: Ok("fn f() {}\n\nuse a;\n".to_string()), relative_path: "a.rs".to_string() },
    );
    match a {
        RunAction::Store { ref path, ref contents, ref notice } => {
            assert_eq!(path, "a.rs");
            assert_eq!(contents, "use a;\n\nfn f() {}\n");
            assert_eq!(notice, "normalized a.rs");
        }
        _ => panic!("expected a store"),
    }
    let (s, a) = step(&p, s, RunEvent::Stored(Ok(())));
    assert!(!s.is_awaiting());
    match a {
        RunAction::Finish(Ok(summary)) => {
            assert_eq!(summary.scanned, 1);
            assert_eq!(summary.changed, 1);
            assert_eq!(summary.changed_files, strings(&["a.rs"]));
        }
        _ => panic!("expected a finish"),
    }
}

#[test]
fn check_mode_run_counts_without_storing() {
    let p = Processor::new(true, all(), NormalizeConfig::default());
    let (s, _) = step(&p, RunState::start(), RunEvent::Listed(Ok(strings(&["a.rs", "b.rs"]))));
    let (s, a) = step(
        &p,
        s,
        RunEvent::Loaded { contents: Ok("fn f() {}\n\nuse a;\n".to_string()), relative_path: "a.rs".to_string() },
    );
    assert!(matches!(a, RunAction::Load(ref f) if f == "b.rs"));
    let (_, a) = step(
        &p,
        s,
        RunEvent::Loaded { contents: Ok("fn g() {}\n".to_string()), relative_path: "b.rs".to_string() },
    );
    match a {
        RunAction::Finish(Ok(summary)) => {
            assert_eq!(summary.scanned, 2);
            assert_eq!(summary.changed, 1);
            assert_eq!(summary.changed_files, strings(&["a.rs"]));
        }
        _ => panic!("expected a finish"),
    }
}

#[test]
fn nothing_to_move_scans_without_reading() {
    let p = Processor::new(false, nothing(), NormalizeConfig::default());
    let (_, a) = step(&p, RunState::start(), RunEvent::Listed(Ok(strings(&["a.rs", "b.rs"]))));
    match a {
        RunAction::Finish(Ok(summary)) => {
            assert_eq!(summary.scanned, 2);
            assert_eq!(summary.changed, 0);
        }
        _ => panic!("expected a finish"),
    }
}

#[test]
fn read_and_write_failures_finish_with_error() {
    let p = Processor::new(false, all(), NormalizeConfig::default());
    let (s, _) = step(&p, RunState::start(), RunEvent::Listed(Ok(strings(&["a.rs"]))));
    let (_, a) = step(
        &p,
        s,
        RunEvent::Loaded { contents: Err("cannot read".to_string()), relative_path: "a.rs".to_string() },
    );
    assert!(matches!(a, RunAction::Finish(Err(ref e)) if e == "cannot read"));
    let (s, _) = step(&p, RunState::start(), RunEvent::Listed(Ok(strings(&["a.rs"]))));
    let (s, _) = step(
        &p,
        s,
        RunEvent::Loaded { contents: Ok("fn f() {}\n\nuse a;\n".to_string()), relative_path: "a.rs".to_string() },
    );
    let (_, a) = step(&p, s, RunEvent::Stored(Err("disk full".to_string())));
    assert!(matches!(a, RunAction::Finish(Err(ref e)) if e == "disk full"));
}

#[test]
fn parse_failure_during_run_finishes_with_error() {
    let p = Processor::new(false, all(), NormalizeConfig::default());
    let (s, _) = step(&p, RunState::start(), RunEvent::Listed(Ok(strings(&["bad.rs"]))));
    let (_, a) = step(
        &p,
        s,
        RunEvent::Loaded { contents: Ok("fn (".to_string()), relative_path: "bad.rs".to_string() },
    );
    assert!(matches!(a, RunAction::Finish(Err(ref e)) if e.starts_with("Failed to parse bad.rs: ")));
}

fn run_over(p: &Processor, files: &[(&str, &str)]) -> (Vec<String>, Vec<String>) {
    let names: Vec<&str> = files.iter().map(|(n, _)| *n).collect();
    let mut stored = Vec::new();
    let (mut state, mut action) =
        p.run_step(RunState::start(), RunEvent::Listed(Ok(strings(&names))));
    loop {
        match action {
            RunAction::Load(path) => {
                let text = files.iter().find(|(n, _)| *n == path).unwrap().1;
                let next = p.run_step(
                    state,
                    RunEvent::Loaded { contents: Ok(text.to_string()), relative_path: path },
                );
                state = next.0;
                action = next.1;
            }
            RunAction::Store { path, .. } => {
                stored.push(path);
                let next = p.run_step(state, RunEvent::Stored(Ok(())));
                state = next.0;
                action = next.1;
            }
            RunAction::Finish(result) => return (result.unwrap().changed_files, stored),
        }
    }
}

#[test]
fn check_run_reports_what_write_run_stores() {
    let files = [
        ("a.rs", "fn f() {}\n\nuse a;\n"),
        ("b.rs", "use a;\n\nfn f() {}\n"),
        ("c.rs", "fn g() {}\n\nmod m;\n"),
    ];
    let check = Processor::new(true, all(), NormalizeConfig::default());
    let write = Processor::new(false, all(), NormalizeConfig::default());
    let (checked, none_stored) = run_over(&check, &files);
    let (written, stored) = run_over(&write, &files);
    assert!(none_stored.is_empty());
    assert_eq!(checked, strings(&["a.rs", "c.rs"]));
    assert_eq!(written, checked);
    assert_eq!(stored, checked);
}

// ---- report ----

#[test]
fn diff_report_has_headers_and_changed_lines() {
    let report = diff_report("src/a.rs", "x\ny\n", "x\nz\n");
    assert!(report.contains("--- a/src/a.rs"), "{report}");
    assert!(report.contains("+++ b/src/a.rs"), "{report}");
    assert!(report.contains("-y\n"), "{report}");
    assert!(report.contains("+z\n"), "{report}");
    assert!(report.contains("@@"), "{report}");
}
