use harmonica_to_kalimba_tab::get_playable_keys;
use harmonica_to_kalimba_tab::keys::key_name;

#[test]
fn empty_tab_has_no_keys() {
    let keys = get_playable_keys("", "richter");
    assert!(keys.is_empty());
}

#[test]
fn whitespace_only_tab_has_no_keys() {
    // A tab with no tokens at all plays no note, so no key fits it.
    assert!(get_playable_keys(" ", "richter").is_empty());
    assert!(get_playable_keys("  \n\t\n", "richter").is_empty());
}

#[test]
fn playable_keys_of_a_melody() {
    // Every token of the melody sits in the middle octave, so the shifts
    // that keep all four notes on tines are -12, -7, -5, 0, 5 and 7; under
    // extreme shifts tokens fall off the table into the unmapped list and
    // no longer block playability, so those offsets qualify vacuously.
    let keys = get_playable_keys("4 -4 5 6", "richter");
    assert_eq!(
        keys,
        vec![
            ("C", -24),
            ("Db", -23),
            ("D", -22),
            ("Eb", -21),
            ("E", -20),
            ("F", -19),
            ("G", -17),
            ("Bb", -14),
            ("C", -12),
            ("F", -7),
            ("G", -5),
            ("C", 0),
            ("F", 5),
            ("G", 7),
            ("C", 12),
            ("D", 14),
            ("E", 16),
            ("F", 17),
            ("F#", 18),
            ("G", 19),
            ("Ab", 20),
            ("A", 21),
            ("Bb", 22),
            ("B", 23),
            ("C", 24),
        ]
    );
}

#[test]
fn key_names_repeat_every_octave() {
    let keys = get_playable_keys("4 -4 5 6", "richter");
    for &(name, offset) in &keys {
        for &(other_name, other_offset) in &keys {
            if other_offset == offset + 12 || other_offset == offset - 12 {
                assert_eq!(name, other_name);
            }
        }
    }
}

#[test]
fn offsets_are_ascending_and_bounded() {
    let keys = get_playable_keys("4 -4 5 6", "richter");
    assert!(keys.len() <= 49);
    for k in 0..keys.len() {
        assert!(-24 <= keys[k].1 && keys[k].1 <= 24);
        if k > 0 {
            assert!(keys[k - 1].1 < keys[k].1);
        }
    }
}

#[test]
fn single_low_note_keys() {
    // Downward shifts push the lowest note off the table (vacuously
    // playable); upward shifts land on every non-gap slot of the layout.
    let keys = get_playable_keys("1", "richter");
    assert_eq!(keys.len(), 39);
    assert_eq!(keys[0], ("C", -24));
    assert_eq!(keys[24], ("C", 0));
    assert_eq!(keys[25], ("D", 2));
    assert_eq!(keys[keys.len() - 1], ("C", 24));
}

#[test]
fn key_name_table() {
    assert_eq!(key_name(0), "C");
    assert_eq!(key_name(11), "B");
    assert_eq!(key_name(13), "Db");
    assert_eq!(key_name(-1), "B");
    assert_eq!(key_name(-24), "C");
    assert_eq!(key_name(7), "G");
}

#[test]
fn unmappable_tokens_never_block_playability() {
    // A token the catalog does not know contributes nothing to the output,
    // so it cannot land on a gap slot: every offset in range qualifies.
    let keys = get_playable_keys("4", "nosuch");
    assert_eq!(keys.len(), 49);
    assert_eq!(keys[0], ("C", -24));
    assert_eq!(keys[48], ("C", 24));
}
