use chrono::Datelike;
use vault_links::CompletionKind;
use vault_links::InsertFormat;
use vault_links::Position;
use vault_links::completion::LinkCompletion;
use vault_links::completion::OpenedFile;
use vault_links::completion::completions;
use vault_links::completion::fuzzy_match_completions;
use vault_links::completion::link_completions;
use vault_links::completion::match_score;
use vault_links::hover::hover;
use vault_links::parser::MarkdownLinkCompleter;
use vault_links::parser::WikiLinkCompleter;
use vault_links::text::base;
use vault_links::text::stem;
use vault_links::text::u64_string;
use vault_links::vault::MDFile;
use vault_links::vault::MDHeading;
use vault_links::vault::Referenceable;
use vault_links::vault::Vault;

fn file(path: &str, lines: &[&str]) -> MDFile {
    MDFile {
        path: path.to_string(),
        lines: lines.iter().map(|s| s.to_string()).collect(),
        headings: vec![],
        blocks: vec![],
    }
}

fn vault(files: Vec<MDFile>) -> Vault {
    Vault { root_dir: "/vault".to_string(), files }
}

fn fmt() -> String {
    "%Y-%m-%d".to_string()
}

fn day(y: i32, m: u32, d: u32) -> i64 {
    chrono::NaiveDate::from_ymd_opt(y, m, d).unwrap().num_days_from_ce() as i64
}

#[test]
fn no_recognizer_matches_empty_result() {
    let v = vault(vec![file("a.md", &["plain text, no link"])]);
    let items = completions(&v, vec![], &"a.md".to_string(), 0, 5, &fmt(), 0);
    assert!(items.is_empty());
}

#[test]
fn no_recognizer_matches_empty_result_line_end() {
    let v = vault(vec![file("a.md", &["a complete [link](x) only"])]);
    let items = completions(&v, vec![], &"a.md".to_string(), 0, 25, &fmt(), 0);
    assert!(items.is_empty());
}

#[test]
fn generation_is_deterministic() {
    let mut b = file("b.md", &["## Intro", "text"]);
    b.headings.push(MDHeading { text: "Intro".to_string(), line: 0 });
    let v = vault(vec![file("a.md", &["[x](zzz) and [[b"]), b]);
    let pos = Position { line: 0, character: 16 };
    let c1 = link_completions(&v, &"a.md".to_string(), pos, &fmt(), 0);
    let c2 = link_completions(&v, &"a.md".to_string(), pos, &fmt(), 0);
    let m1: Vec<String> = c1.iter().map(|c| c.match_string()).collect();
    let m2: Vec<String> = c2.iter().map(|c| c.match_string()).collect();
    assert_eq!(m1, m2);
    assert!(m1.contains(&"b.md#Intro".to_string()));
    let i1 = completions(&v, vec![], &"a.md".to_string(), 0, 16, &fmt(), 0);
    let i2 = completions(&v, vec![], &"a.md".to_string(), 0, 16, &fmt(), 0);
    let l1: Vec<String> = i1.iter().map(|i| i.label.clone()).collect();
    let l2: Vec<String> = i2.iter().map(|i| i.label.clone()).collect();
    assert_eq!(l1, l2);
}

#[test]
fn single_unresolved_under_cursor_is_excluded() {
    let v = vault(vec![file("a.md", &["[x](missing)"])]);
    let pos = Position { line: 0, character: 7 };
    let cands = link_completions(&v, &"a.md".to_string(), pos, &fmt(), 0);
    let names: Vec<String> = cands.iter().map(|c| c.match_string()).collect();
    assert!(!names.contains(&"missing".to_string()));
    assert!(names.contains(&"a.md".to_string()));
}

#[test]
fn second_occurrence_makes_candidate_reappear() {
    let v = vault(vec![
        file("a.md", &["[x](missing)"]),
        file("b.md", &["also [x](missing) here"]),
    ]);
    let pos = Position { line: 0, character: 7 };
    let cands = link_completions(&v, &"a.md".to_string(), pos, &fmt(), 0);
    let names: Vec<String> = cands.iter().map(|c| c.match_string()).collect();
    assert!(names.contains(&"missing".to_string()));
}

#[test]
fn daily_note_today() {
    let r = Referenceable::File { path: "2024-01-01.md".to_string() };
    let c = LinkCompletion::new(&r, &fmt(), day(2024, 1, 1)).unwrap();
    assert_eq!(c.match_string(), "today: 2024-01-01");
    assert_eq!(c.refname(), "2024-01-01");
}

#[test]
fn daily_note_tomorrow() {
    let r = Referenceable::File { path: "2024-01-01.md".to_string() };
    let c = LinkCompletion::new(&r, &fmt(), day(2023, 12, 31)).unwrap();
    assert_eq!(c.match_string(), "tomorrow: 2024-01-01");
    assert_eq!(c.refname(), "2024-01-01");
}

#[test]
fn daily_note_yesterday() {
    let r = Referenceable::File { path: "2024-01-01.md".to_string() };
    let c = LinkCompletion::new(&r, &fmt(), day(2024, 1, 2)).unwrap();
    assert_eq!(c.match_string(), "yesterday: 2024-01-01");
}

#[test]
fn distant_date_is_a_plain_file() {
    let r = Referenceable::File { path: "2024-01-01.md".to_string() };
    let c = LinkCompletion::new(&r, &fmt(), day(2024, 1, 5)).unwrap();
    assert_eq!(c.match_string(), "2024-01-01.md");
    assert_eq!(c.refname(), "2024-01-01.md");
}

#[test]
fn undated_name_is_a_plain_file() {
    let r = Referenceable::File { path: "notes.md".to_string() };
    let c = LinkCompletion::new(&r, &fmt(), day(2024, 1, 1)).unwrap();
    assert_eq!(c.match_string(), "notes.md");
}

#[test]
fn markdown_edit_wraps_spaced_refname_in_snippet() {
    let v = vault(vec![file("note.md", &["[foo]("]), file("bar baz.md", &["hello"])]);
    let items = completions(&v, vec![], &"note.md".to_string(), 0, 6, &fmt(), 0);
    let item = items.iter().find(|i| i.label == "bar baz.md").unwrap();
    assert_eq!(item.text_edit.new_text, "[${1:foo}](<bar baz.md>)");
    assert_eq!(item.text_edit.range.start, Position { line: 0, character: 0 });
    assert_eq!(item.text_edit.range.end, Position { line: 0, character: 6 });
    assert_eq!(item.insert_format, InsertFormat::Snippet);
    assert_eq!(item.kind, CompletionKind::File);
    assert_eq!(item.filter_text, "[foo](bar baz.md");
}

#[test]
fn wiki_parser_finds_second_marker() {
    let v = vault(vec![file("a.md", &["[[a]] [[b"])]);
    let c = WikiLinkCompleter::construct(&v, &"a.md".to_string(), 0, 9).unwrap();
    assert_eq!(c.cmp_text, "b");
    assert_eq!(c.index, 7);
}

#[test]
fn wiki_parser_fails_on_intervening_bracket() {
    let v = vault(vec![file("a.md", &["[[a]] b"])]);
    assert!(WikiLinkCompleter::construct(&v, &"a.md".to_string(), 0, 7).is_none());
}

#[test]
fn paren_at_cursor_extends_replacement_range() {
    let v = vault(vec![file("a.md", &["[foo]()"])]);
    let c = MarkdownLinkCompleter::construct(&v, &"a.md".to_string(), 0, 6).unwrap();
    assert_eq!(c.partial_link.1.start, 0);
    assert_eq!(c.partial_link.1.end, 6);
    assert_eq!(c.full_range.start, 0);
    assert_eq!(c.full_range.end, 7);
}

#[test]
fn no_paren_keeps_raw_match_range() {
    let v = vault(vec![file("a.md", &["[foo]("])]);
    let c = MarkdownLinkCompleter::construct(&v, &"a.md".to_string(), 0, 6).unwrap();
    assert_eq!(c.full_range.start, 0);
    assert_eq!(c.full_range.end, 6);
}

#[test]
fn overlapping_link_takes_its_full_range() {
    let v = vault(vec![file("a.md", &["[x](zzz) [y](zzz)"])]);
    let c = MarkdownLinkCompleter::construct(&v, &"a.md".to_string(), 0, 6).unwrap();
    assert_eq!(c.full_range.start, 0);
    assert_eq!(c.full_range.end, 8);
    assert_eq!(c.path.0, "zz");
}

#[test]
fn unresolved_candidate_carries_qualifier() {
    let v = vault(vec![file("a.md", &["[x](zzz) [y](zzz)"])]);
    let items = completions(&v, vec![], &"a.md".to_string(), 0, 6, &fmt(), 0);
    let item = items.iter().find(|i| i.label == "zzz").unwrap();
    assert_eq!(item.kind, CompletionKind::Keyword);
    assert_eq!(item.label_detail.as_deref(), Some("Unresolved"));
    assert_eq!(item.text_edit.new_text, "[${1:x}](zzz)");
}

#[test]
fn infile_fragment_classification() {
    let v = vault(vec![file("a.md", &["[d](p#^blk"])]);
    let c = MarkdownLinkCompleter::construct(&v, &"a.md".to_string(), 0, 10).unwrap();
    let (inf, range) = c.infile_ref.as_ref().unwrap();
    assert_eq!(inf.to_string(), "^blk");
    assert_eq!(range.start, 6);
    assert_eq!(range.end, 10);
    assert_eq!(c.entered_refname(), "p^blk");
    let v2 = vault(vec![file("a.md", &["[d](p#head"])]);
    let c2 = MarkdownLinkCompleter::construct(&v2, &"a.md".to_string(), 0, 10).unwrap();
    let (inf2, _) = c2.infile_ref.as_ref().unwrap();
    assert_eq!(inf2.to_string(), "head");
}

#[test]
fn fuzzy_filters_and_prefers_contiguous() {
    let mk = |p: &str| {
        LinkCompletion::new(&Referenceable::File { path: p.to_string() }, &fmt(), 0).unwrap()
    };
    let cands = vec![mk("a_b.md"), mk("ab.md"), mk("zzz.md")];
    let ranked = fuzzy_match_completions(&"ab".to_string(), cands);
    let names: Vec<String> = ranked.iter().map(|c| c.match_string()).collect();
    assert_eq!(names, vec!["ab.md".to_string(), "a_b.md".to_string()]);
}

#[test]
fn fuzzy_is_case_insensitive_and_empty_matches_all() {
    assert_eq!(match_score(&"AB".to_string(), &"ab.md".to_string()), Some(3));
    assert_eq!(match_score(&"".to_string(), &"anything".to_string()), Some(0));
    assert_eq!(match_score(&"q".to_string(), &"ab.md".to_string()), None);
}

#[test]
fn wiki_empty_fragment_orders_by_recency() {
    let v = vault(vec![
        file("a.md", &["[["]),
        file("b.md", &["bee"]),
        file("c.md", &["cee"]),
    ]);
    let opened = vec![
        OpenedFile { path: "c.md".to_string(), modified_secs: None },
        OpenedFile { path: "b.md".to_string(), modified_secs: Some(100) },
    ];
    let items = completions(&v, opened, &"a.md".to_string(), 0, 2, &fmt(), 0);
    let labels: Vec<String> = items.iter().map(|i| i.label.clone()).collect();
    assert_eq!(labels, vec!["b.md".to_string(), "c.md".to_string()]);
    assert_eq!(items[0].sort_text.as_deref(), Some("100"));
    assert_eq!(items[1].sort_text.as_deref(), Some("0"));
    assert_eq!(items[0].insert_format, InsertFormat::PlainText);
}

#[test]
fn wiki_typed_fragment_ranks_and_edits() {
    let v = vault(vec![file("a.md", &["[[ba"]), file("banana.md", &["fruit"])]);
    let items = completions(&v, vec![], &"a.md".to_string(), 0, 4, &fmt(), 0);
    let item = items.iter().find(|i| i.label == "banana.md").unwrap();
    assert_eq!(item.text_edit.new_text, "banana.md");
    assert_eq!(item.text_edit.range.start, Position { line: 0, character: 2 });
    assert_eq!(item.text_edit.range.end, Position { line: 0, character: 4 });
    assert_eq!(item.filter_text, "banana.md");
}

#[test]
fn hover_renders_file_preview() {
    let v = vault(vec![
        file("a.md", &["see [x](b.md) ok"]),
        file("b.md", &["first line", "second"]),
    ]);
    let r = hover(&v, &"a.md".to_string(), Position { line: 0, character: 6 }).unwrap();
    assert_eq!(r, "File Preview:\n---\n\nfirst linesecond");
}

#[test]
fn hover_renders_heading_preview() {
    let mut b = file("b.md", &["first line", "## Intro", "body"]);
    b.headings.push(MDHeading { text: "Intro".to_string(), line: 1 });
    let v = vault(vec![file("a.md", &["see [x](b.md#Intro) ok"]), b]);
    let r = hover(&v, &"a.md".to_string(), Position { line: 0, character: 6 }).unwrap();
    assert_eq!(r, "Heading Preview:\n---\n\n## Introbody");
}

#[test]
fn hover_unresolved_renders_generic_preview() {
    let v = vault(vec![file("a.md", &["see [x](nowhere) ok"])]);
    let r = hover(&v, &"a.md".to_string(), Position { line: 0, character: 6 }).unwrap();
    assert_eq!(r, "Preview:\n---\n\n");
}

#[test]
fn hover_away_from_links_is_empty() {
    let v = vault(vec![file("a.md", &["xx [y](b.md)"]), file("b.md", &["t"])]);
    assert!(hover(&v, &"a.md".to_string(), Position { line: 0, character: 0 }).is_none());
}

#[test]
fn empty_display_defaults_to_heading_text() {
    let mut b = file("b.md", &["## Intro", "body"]);
    b.headings.push(MDHeading { text: "Intro".to_string(), line: 0 });
    let v = vault(vec![file("note.md", &["[](b"]), b]);
    let items = completions(&v, vec![], &"note.md".to_string(), 0, 4, &fmt(), 0);
    let item = items.iter().find(|i| i.label == "b.md#Intro").unwrap();
    assert_eq!(item.text_edit.new_text, "[${1:Intro}](b.md#Intro)");
    assert_eq!(item.kind, CompletionKind::Reference);
}

#[test]
fn hover_resolves_wiki_link_with_display() {
    let v = vault(vec![
        file("a.md", &["go [[b.md|there]] now"]),
        file("b.md", &["target text"]),
    ]);
    let r = hover(&v, &"a.md".to_string(), Position { line: 0, character: 5 }).unwrap();
    assert_eq!(r, "File Preview:\n---\n\ntarget text");
}

#[test]
fn decimal_rendering_and_path_parts() {
    assert_eq!(u64_string(0), "0");
    assert_eq!(u64_string(907), "907");
    assert_eq!(u64_string(10), "10");
    assert_eq!(base("dir/a b.md"), "a b.md");
    assert_eq!(stem("dir/a b.md"), "a b");
    assert_eq!(stem("noext"), "noext");
    assert_eq!(stem(".hidden"), ".hidden");
}
