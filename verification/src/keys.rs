//! The playable-key search: sweeps every semitone offset in [-24, 24] and
//! keeps those under which the whole tab transposes without landing on a
//! kalimba gap slot, each labelled with its chromatic key name.

use vstd::prelude::*;
use crate::kalimba::{kalimba_layout, numbers_layout_spec, TabStyle};
use crate::text::{
    chars_of, contains_char, lines_view, split_lines, split_lines_spec, split_tokens, tokens_spec,
};
use crate::transpose::{transpose_out_spec, transpose_tab_lines};
use crate::tuning::{resolve_tuning, tuning_enharmonics_spec, tuning_notes_spec};

verus! {

/// The twelve chromatic key names, one per semitone above the tonic.
pub open spec fn chromatic_name_spec(i: int) -> Seq<char> {
    if i == 0 {
        "C"@
    } else if i == 1 {
        "Db"@
    } else if i == 2 {
        "D"@
    } else if i == 3 {
        "Eb"@
    } else if i == 4 {
        "E"@
    } else if i == 5 {
        "F"@
    } else if i == 6 {
        "F#"@
    } else if i == 7 {
        "G"@
    } else if i == 8 {
        "Ab"@
    } else if i == 9 {
        "A"@
    } else if i == 10 {
        "Bb"@
    } else {
        "B"@
    }
}

/// The key name a semitone offset lands in: offsets twelve apart share it.
pub open spec fn key_name_spec(off: int) -> Seq<char> {
    chromatic_name_spec(off % 12)
}

/// The chromatic key name for a semitone offset.
pub fn key_name(semitones: i32) -> (r: &'static str)
    ensures
        r@ == key_name_spec(semitones as int),
{
    let m = semitones.checked_rem_euclid(12);
    let i: i32 = m.unwrap();
    if i == 0 {
        "C"
    } else if i == 1 {
        "Db"
    } else if i == 2 {
        "D"
    } else if i == 3 {
        "Eb"
    } else if i == 4 {
        "E"
    } else if i == 5 {
        "F"
    } else if i == 6 {
        "F#"
    } else if i == 7 {
        "G"
    } else if i == 8 {
        "Ab"
    } else if i == 9 {
        "A"
    } else if i == 10 {
        "Bb"
    } else {
        "B"
    }
}

/// Law: periodicity — offsets twelve semitones apart carry the same key
/// name, so a playable offset shares its label with its octave neighbours.
pub proof fn lemma_key_name_period(off: int)
    ensures
        key_name_spec(off + 12) == key_name_spec(off),
        key_name_spec(off - 12) == key_name_spec(off),
{
    vstd::arithmetic::div_mod::lemma_mod_multiples_vanish(1, off, 12);
    vstd::arithmetic::div_mod::lemma_mod_multiples_vanish(-1, off, 12);
}

/// Whether transposing `tab` by `off` yields output free of the gap marker,
/// checked in the scale-degree spelling.
pub open spec fn offset_playable_spec(
    tab: Seq<char>,
    source: Seq<Seq<char>>,
    enh: Seq<(Seq<char>, Seq<char>)>,
    off: int,
) -> bool {
    !transpose_out_spec(tab, source, enh, numbers_layout_spec(), off).contains('X')
}

/// The playable keys among offsets `from..=24`, ascending.
pub open spec fn playable_keys_from_spec(
    tab: Seq<char>,
    source: Seq<Seq<char>>,
    enh: Seq<(Seq<char>, Seq<char>)>,
    from: int,
) -> Seq<(Seq<char>, int)>
    decreases 25 - from,
{
    if from > 24 {
        Seq::empty()
    } else {
        let rest = playable_keys_from_spec(tab, source, enh, from + 1);
        if offset_playable_spec(tab, source, enh, from) {
            seq![(key_name_spec(from), from)] + rest
        } else {
            rest
        }
    }
}

/// Whether the tab holds any token at all, on any of its lines.
pub open spec fn tab_has_tokens(tab: Seq<char>) -> bool {
    exists|j: int|
        0 <= j < split_lines_spec(tab).len() && (#[trigger] tokens_spec(
            split_lines_spec(tab)[j],
        )).len() != 0
}

/// The playable keys of `tab` under the tuning `id` names: every offset in
/// [-24, 24] whose transposition avoids the gap marker, ascending, labelled
/// with its key name. A tab without any token has none: no note is played,
/// so no key fits it.
pub open spec fn playable_keys_spec(tab: Seq<char>, id: Seq<char>) -> Seq<(Seq<char>, int)> {
    if tab_has_tokens(tab) {
        playable_keys_from_spec(tab, tuning_notes_spec(id), tuning_enharmonics_spec(id), -24)
    } else {
        Seq::empty()
    }
}

/// The views of a key list's entries.
pub open spec fn keys_view(v: Seq<(&'static str, i32)>) -> Seq<(Seq<char>, int)> {
    v.map_values(|p: (&'static str, i32)| (p.0@, p.1 as int))
}

/// Every semitone offset in [-24, 24] under which the whole tab stays
/// playable on the kalimba, ascending, each labelled with the musical key
/// it lands in. A tab without any token yields the empty list without any
/// search.
pub fn get_playable_keys(tab: &str, input_tuning: &str) -> (r: Vec<(&'static str, i32)>)
    ensures
        keys_view(r@) == playable_keys_spec(tab@, input_tuning@),
        r@.len() <= 49,
        forall|i: int| #![trigger r@[i]] 0 <= i < r@.len() ==> -24 <= r@[i].1 <= 24,
        forall|i: int, j: int| #![trigger r@[i], r@[j]] 0 <= i < j < r@.len() ==> r@[i].1 < r@[j].1,
        !tab_has_tokens(tab@) ==> r@.len() == 0,
        tab@.len() == 0 ==> r@.len() == 0,
{
    let mut results: Vec<(&'static str, i32)> = Vec::new();
    let chars = chars_of(tab);
    let lines = split_lines(&chars);
    let ghost lv = lines_view(lines@);
    let mut any: bool = false;
    let mut li: usize = 0;
    while li < lines.len()
        invariant
            li <= lines.len(),
            lv == lines_view(lines@),
            lv == split_lines_spec(tab@),
            any <==> exists|j: int|
                0 <= j < li && (#[trigger] tokens_spec(lv[j])).len() != 0,
        decreases lines.len() - li,
    {
        let toks = split_tokens(&lines[li]);
        proof {
            assert(lv[li as int] == lines@[li as int]@);
        }
        if toks.len() > 0 {
            any = true;
            proof {
                assert(tokens_spec(lv[li as int]).len() != 0);
            }
        }
        li += 1;
    }
    if !any {
        proof {
            assert(!tab_has_tokens(tab@));
            assert(keys_view(results@) =~= playable_keys_spec(tab@, input_tuning@));
        }
        return results;
    }
    proof {
        assert(tab_has_tokens(tab@));
    }
    let ghost tv = tab@;
    let ghost sv = tuning_notes_spec(input_tuning@);
    let ghost ev = tuning_enharmonics_spec(input_tuning@);
    let tuning = resolve_tuning(input_tuning);
    let target = kalimba_layout(TabStyle::Numbers);
    let mut semitones: i32 = -24;
    proof {
        assert(keys_view(results@) =~= Seq::<(Seq<char>, int)>::empty());
        assert(Seq::<(Seq<char>, int)>::empty() + playable_keys_from_spec(tv, sv, ev, -24)
            =~= playable_keys_from_spec(tv, sv, ev, -24));
    }
    while semitones <= 24
        invariant
            -24 <= semitones <= 25,
            tv == tab@,
            sv == tuning_notes_spec(input_tuning@),
            ev == tuning_enharmonics_spec(input_tuning@),
            crate::text::strs_view(tuning.notes@) == sv,
            crate::tuning::pairs_view(tuning.enharmonics@) == ev,
            crate::text::strs_view(target@) == numbers_layout_spec(),
            playable_keys_from_spec(tv, sv, ev, -24) == keys_view(results@)
                + playable_keys_from_spec(tv, sv, ev, semitones as int),
            results@.len() <= semitones + 24,
            forall|i: int| #![trigger results@[i]] 0 <= i < results@.len() ==> -24 <= results@[i].1 < semitones,
            forall|i: int, j: int|
                #![trigger results@[i], results@[j]]
                0 <= i < j < results@.len() ==> results@[i].1 < results@[j].1,
        decreases 25 - semitones,
    {
        let ghost prev = keys_view(results@);
        let (notes, _errors) = transpose_tab_lines(
            tab,
            semitones,
            &tuning.notes,
            &tuning.enharmonics,
            &target,
        );
        if !contains_char(&notes, 'X') {
            let key = key_name(semitones);
            results.push((key, semitones));
            proof {
                assert(keys_view(results@) =~= prev + seq![
                    (key_name_spec(semitones as int), semitones as int),
                ]);
                assert(prev + (seq![(key_name_spec(semitones as int), semitones as int)]
                    + playable_keys_from_spec(tv, sv, ev, semitones + 1)) =~= (prev + seq![
                    (key_name_spec(semitones as int), semitones as int),
                ]) + playable_keys_from_spec(tv, sv, ev, semitones + 1));
            }
        }
        semitones += 1;
    }
    proof {
        assert(playable_keys_from_spec(tv, sv, ev, semitones as int)
            =~= Seq::<(Seq<char>, int)>::empty());
        assert(keys_view(results@) + Seq::<(Seq<char>, int)>::empty() =~= keys_view(results@));
    }
    results
}

} // verus!
