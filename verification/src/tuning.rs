//! The source instrument's note catalog: for a tuning identifier, the
//! ordered sequence of playable pitches (one note token per semitone,
//! ascending) and the map from duplicate spellings to canonical tokens.
//!
//! Only the `"richter"` identifier is supported. An unknown identifier
//! resolves to the empty catalog, so every token of a tab is reported as
//! unmapped rather than the call failing.

use vstd::prelude::*;
use crate::text::strs_view;

verus! {

/// A tuning's note tables: what the transposer reads of a tuning.
pub struct Tuning {
    /// Every playable pitch of the source instrument, in ascending pitch
    /// order, one token per semitone.
    pub notes: Vec<String>,
    /// Duplicate spellings: each pair maps an alternate spelling to the
    /// canonical token that appears in `notes`.
    pub enharmonics: Vec<(String, String)>,
}

/// The character sequences of a sequence of string pairs.
pub open spec fn pairs_view(v: Seq<(String, String)>) -> Seq<(Seq<char>, Seq<char>)> {
    v.map_values(|p: (String, String)| (p.0@, p.1@))
}

/// The Richter-tuned ten-hole harmonica's notes in ascending chromatic
/// order: plain holes, draw bends (`'`), and overblows/overdraws (`o`).
pub open spec fn richter_notes_spec() -> Seq<Seq<char>> {
    seq![
        "1"@, "-1'"@, "-1"@, "1o"@, "2"@, "-2''"@, "-2'"@, "-2"@,
        "-3'''"@, "-3''"@, "-3'"@, "-3"@, "4"@, "-4'"@, "-4"@, "4o"@,
        "5"@, "-5"@, "5o"@, "6"@, "-6'"@, "-6"@, "6o"@, "-7"@,
        "7"@, "-7o"@, "-8"@, "8'"@, "8"@, "-9"@, "9'"@, "9"@,
        "-9o"@, "-10"@, "10''"@, "10'"@, "10"@, "-10o"@,
    ]
}

/// Richter's one duplicate spelling: blow 3 sounds the same pitch as
/// draw 2, whose token is the canonical one.
pub open spec fn richter_enharmonics_spec() -> Seq<(Seq<char>, Seq<char>)> {
    seq![("3"@, "-2"@)]
}

/// The ordered note table of the tuning `id` names; empty when unknown.
pub open spec fn tuning_notes_spec(id: Seq<char>) -> Seq<Seq<char>> {
    if id == "richter"@ {
        richter_notes_spec()
    } else {
        Seq::empty()
    }
}

/// The duplicate-spelling map of the tuning `id` names; empty when unknown.
pub open spec fn tuning_enharmonics_spec(id: Seq<char>) -> Seq<(Seq<char>, Seq<char>)> {
    if id == "richter"@ {
        richter_enharmonics_spec()
    } else {
        Seq::empty()
    }
}

/// Looks the tuning up by its identifier. An unknown identifier yields the
/// empty catalog (no note maps, everything lands in the unmapped list).
pub fn resolve_tuning(id: &str) -> (t: Tuning)
    ensures
        strs_view(t.notes@) == tuning_notes_spec(id@),
        pairs_view(t.enharmonics@) == tuning_enharmonics_spec(id@),
{
    let given: String = id.to_owned();
    let richter: String = "richter".to_owned();
    let mut notes: Vec<String> = Vec::new();
    let mut enharmonics: Vec<(String, String)> = Vec::new();
    if given == richter {
        notes.push("1".to_owned());
        notes.push("-1'".to_owned());
        notes.push("-1".to_owned());
        notes.push("1o".to_owned());
        notes.push("2".to_owned());
        notes.push("-2''".to_owned());
        notes.push("-2'".to_owned());
        notes.push("-2".to_owned());
        notes.push("-3'''".to_owned());
        notes.push("-3''".to_owned());
        notes.push("-3'".to_owned());
        notes.push("-3".to_owned());
        notes.push("4".to_owned());
        notes.push("-4'".to_owned());
        notes.push("-4".to_owned());
        notes.push("4o".to_owned());
        notes.push("5".to_owned());
        notes.push("-5".to_owned());
        notes.push("5o".to_owned());
        notes.push("6".to_owned());
        notes.push("-6'".to_owned());
        notes.push("-6".to_owned());
        notes.push("6o".to_owned());
        notes.push("-7".to_owned());
        notes.push("7".to_owned());
        notes.push("-7o".to_owned());
        notes.push("-8".to_owned());
        notes.push("8'".to_owned());
        notes.push("8".to_owned());
        notes.push("-9".to_owned());
        notes.push("9'".to_owned());
        notes.push("9".to_owned());
        notes.push("-9o".to_owned());
        notes.push("-10".to_owned());
        notes.push("10''".to_owned());
        notes.push("10'".to_owned());
        notes.push("10".to_owned());
        notes.push("-10o".to_owned());
        enharmonics.push(("3".to_owned(), "-2".to_owned()));
    }
    let t = Tuning { notes, enharmonics };
    proof {
        assert(strs_view(t.notes@) =~= tuning_notes_spec(id@));
        assert(pairs_view(t.enharmonics@) =~= tuning_enharmonics_spec(id@));
    }
    t
}

} // verus!
