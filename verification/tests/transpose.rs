use harmonica_to_kalimba_tab::kalimba::kalimba_layout;
use harmonica_to_kalimba_tab::transpose::{map_note, normalize_note, transpose_tab_lines};
use harmonica_to_kalimba_tab::{transpose_tabs, TabStyle};

fn strings(words: &[&str]) -> Vec<String> {
    let mut v = Vec::new();
    for w in words {
        v.push((*w).to_string());
    }
    v
}

#[test]
fn stub_identity_offset() {
    let table = strings(&["a", "b", "c", "d"]);
    let (out, errs) = transpose_tab_lines("a b\nc", 0, &table, &Vec::new(), &table);
    assert_eq!(out, "a b \nc \n");
    assert!(errs.is_empty());
}

#[test]
fn stub_offset_one() {
    let table = strings(&["a", "b", "c", "d"]);
    let (out, errs) = transpose_tab_lines("a b\nc", 1, &table, &Vec::new(), &table);
    assert_eq!(out, "b c \nd \n");
    assert!(errs.is_empty());
}

#[test]
fn stub_unknown_token_is_reported_alone() {
    let table = strings(&["a", "b", "c", "d"]);
    let (out, errs) = transpose_tab_lines("a b q\nc", 1, &table, &Vec::new(), &table);
    assert_eq!(out, "b c \nd \n");
    assert_eq!(errs, vec!["q".to_string()]);
}

#[test]
fn stub_out_of_range_is_reported() {
    let table = strings(&["a", "b", "c", "d"]);
    let (out, errs) = transpose_tab_lines("d", 1, &table, &Vec::new(), &table);
    assert_eq!(out, "\n");
    assert_eq!(errs, vec!["d".to_string()]);
}

#[test]
fn line_count_preserved_with_blank_lines() {
    let table = strings(&["a", "b", "c", "d"]);
    let (out, errs) = transpose_tab_lines("a\n\nb", 0, &table, &Vec::new(), &table);
    assert_eq!(out, "a \n\nb \n");
    assert_eq!(out.lines().count(), "a\n\nb".lines().count());
    assert!(errs.is_empty());
}

#[test]
fn trailing_newline_opens_no_extra_line() {
    let table = strings(&["a", "b", "c", "d"]);
    let (out, _) = transpose_tab_lines("a\n", 0, &table, &Vec::new(), &table);
    assert_eq!(out, "a \n");
    assert_eq!(out.lines().count(), 1);
}

#[test]
fn unicode_whitespace_separates_tokens() {
    let table = strings(&["a", "b", "c", "d"]);
    let (out, errs) = transpose_tab_lines("a\u{000C}b\u{00A0}c", 0, &table, &Vec::new(), &table);
    assert_eq!(out, "a b c \n");
    assert!(errs.is_empty());
}

#[test]
fn map_note_round_trip() {
    let table = strings(&["a", "b", "c", "d"]);
    let up = map_note(&table, &table, &"a".to_string(), 2);
    assert_eq!(up, Some("c".to_string()));
    let back = map_note(&table, &table, &"c".to_string(), -2);
    assert_eq!(back, Some("a".to_string()));
}

#[test]
fn map_note_rejects_unknown_and_out_of_range() {
    let table = strings(&["a", "b", "c", "d"]);
    assert_eq!(map_note(&table, &table, &"q".to_string(), 0), None);
    assert_eq!(map_note(&table, &table, &"d".to_string(), 1), None);
    assert_eq!(map_note(&table, &table, &"a".to_string(), -1), None);
}

#[test]
fn normalize_note_rewrites_duplicates_only() {
    let mut enh: Vec<(String, String)> = Vec::new();
    enh.push(("3".to_string(), "-2".to_string()));
    assert_eq!(normalize_note(&enh, &"3".to_string()), "-2");
    assert_eq!(normalize_note(&enh, &"4".to_string()), "4");
}

#[test]
fn richter_numbers_basic() {
    let (out, errs) = transpose_tabs("4 -4 5", 0, "richter", TabStyle::Numbers);
    assert_eq!(out, "1° 2° 3° \n");
    assert!(errs.is_empty());
}

#[test]
fn richter_down_an_octave() {
    let (out, errs) = transpose_tabs("4 -4 5", -12, "richter", TabStyle::Numbers);
    assert_eq!(out, "1 2 3 \n");
    assert!(errs.is_empty());
}

#[test]
fn richter_letters_style() {
    let (out, errs) = transpose_tabs("4", 0, "richter", TabStyle::Letters);
    assert_eq!(out, "C° \n");
    assert!(errs.is_empty());
}

#[test]
fn richter_enharmonic_spelling() {
    let (out, errs) = transpose_tabs("3", 0, "richter", TabStyle::Numbers);
    assert_eq!(out, "5 \n");
    assert!(errs.is_empty());
}

#[test]
fn unmapped_token_reported_as_written() {
    let (out, errs) = transpose_tabs("3", 24, "richter", TabStyle::Numbers);
    assert_eq!(out, "\n");
    assert_eq!(errs, vec!["3".to_string()]);
}

#[test]
fn unknown_tuning_resolves_to_empty_catalog() {
    let (out, errs) = transpose_tabs("4 5", 0, "nosuch", TabStyle::Numbers);
    assert_eq!(out, "\n");
    assert_eq!(errs, vec!["4".to_string(), "5".to_string()]);
}

#[test]
fn gap_slot_is_unplayable() {
    let (out, errs) = transpose_tabs("4", 1, "richter", TabStyle::Numbers);
    assert_eq!(out, "X \n");
    assert!(errs.is_empty());
}

#[test]
fn tab_style_display_names() {
    assert_eq!(TabStyle::Numbers.display_name(), "Numbers");
    assert_eq!(TabStyle::Letters.display_name(), "Letters");
}

#[test]
fn layouts_are_parallel() {
    let numbers = kalimba_layout(TabStyle::Numbers);
    let letters = kalimba_layout(TabStyle::Letters);
    assert_eq!(numbers.len(), letters.len());
    for k in 0..numbers.len() {
        assert_eq!(numbers[k] == "X", letters[k] == "X");
    }
}
