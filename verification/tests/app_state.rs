use harmonica_to_kalimba_tab::{App, TabStyle};

#[test]
fn default_state() {
    let app = App::default();
    assert!(app.input_tab.starts_with("4 -4 5 6"));
    assert_eq!(app.input_tab.lines().count(), 5);
    assert_eq!(app.output_tab, "");
    assert_eq!(app.error_text, "");
    assert_eq!(app.semitone_offset, 0);
    assert!(app.playable_keys.is_empty());
    assert_eq!(app.tab_style, TabStyle::Numbers);
    assert_eq!(app.input_position, 1);
}

#[test]
fn transpose_fills_output_and_keeps_line_count() {
    let mut app = App::default();
    app.transpose();
    assert_eq!(app.output_tab.lines().count(), app.input_tab.lines().count());
    assert_eq!(
        app.output_tab.lines().next().unwrap(),
        "1° 2° 3° 5° 5° 6° 5° 3° 1° 2° 3° 3° 2° 1° 2° "
    );
    assert_eq!(app.error_text, "");
}

#[test]
fn transpose_collects_error_text() {
    let mut app = App::default();
    app.input_tab = "q1 q2".to_string();
    app.transpose();
    assert_eq!(app.output_tab, "\n");
    assert_eq!(app.error_text, "q1 q2");
}

#[test]
fn refresh_playable_keys_of_default_tab() {
    let mut app = App::default();
    app.refresh_playable_keys();
    assert!(!app.playable_keys.is_empty());
    for &(_, offset) in &app.playable_keys {
        assert!(-24 <= offset && offset <= 24);
    }
}

#[test]
fn refresh_playable_keys_of_empty_tab() {
    let mut app = App::default();
    app.input_tab = String::new();
    app.refresh_playable_keys();
    assert!(app.playable_keys.is_empty());
}

#[test]
fn chosen_key_feeds_back_into_transposition() {
    let mut app = App::default();
    app.refresh_playable_keys();
    let (_, offset) = app.playable_keys[0];
    app.semitone_offset = offset;
    app.transpose();
    assert!(!app.output_tab.contains('X'));
}
