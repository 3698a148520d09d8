//! The kalimba's fixed note layout: an ordered chromatic sequence of slots,
//! one per semitone, where `"X"` marks a semitone the instrument has no tine
//! for. Two parallel spellings of the same physical layout are offered.

use vstd::prelude::*;
use crate::text::strs_view;

verus! {

/// Which textual vocabulary the kalimba output uses.
#[derive(Debug, PartialEq, Eq, Clone, Copy)]
pub enum TabStyle {
    Numbers,
    Letters,
}

impl TabStyle {
    /// The style's display name, equal to its variant name.
    pub fn display_name(&self) -> (r: String)
        ensures
            self is Numbers ==> r@ == "Numbers"@,
            self is Letters ==> r@ == "Letters"@,
    {
        match self {
            TabStyle::Numbers => "Numbers".to_owned(),
            TabStyle::Letters => "Letters".to_owned(),
        }
    }
}

/// The kalimba slots in scale-degree spelling, ascending by semitone;
/// `"X"` is a gap (no tine at that pitch).
pub open spec fn numbers_layout_spec() -> Seq<Seq<char>> {
    seq![
        "1"@, "X"@, "2"@, "X"@, "3"@, "4"@, "X"@, "5"@, "X"@, "6"@, "X"@, "7"@,
        "1°"@, "X"@, "2°"@, "X"@, "3°"@, "4°"@, "X"@, "5°"@, "X"@, "6°"@, "X"@, "7°"@,
        "1°°"@, "X"@, "2°°"@, "X"@, "3°°"@,
    ]
}

/// The same physical slots in letter-named spelling: slot `i` here is the
/// same tine as slot `i` of the scale-degree spelling.
pub open spec fn letters_layout_spec() -> Seq<Seq<char>> {
    seq![
        "C"@, "X"@, "D"@, "X"@, "E"@, "F"@, "X"@, "G"@, "X"@, "A"@, "X"@, "B"@,
        "C°"@, "X"@, "D°"@, "X"@, "E°"@, "F°"@, "X"@, "G°"@, "X"@, "A°"@, "X"@, "B°"@,
        "C°°"@, "X"@, "D°°"@, "X"@, "E°°"@,
    ]
}

/// The slot table a given style writes its output with.
pub open spec fn kalimba_layout_spec(style: TabStyle) -> Seq<Seq<char>> {
    match style {
        TabStyle::Numbers => numbers_layout_spec(),
        TabStyle::Letters => letters_layout_spec(),
    }
}

/// Law: the two spellings are value-for-value parallel — they have the
/// same length, and slot `k` is a gap in one exactly when it is a gap in
/// the other, so playability does not depend on the chosen style.
pub proof fn lemma_layouts_parallel()
    ensures
        numbers_layout_spec().len() == letters_layout_spec().len(),
        forall|k: int|
            0 <= k < numbers_layout_spec().len() ==> ((#[trigger] numbers_layout_spec()[k])
                == "X"@ <==> letters_layout_spec()[k] == "X"@),
{
    reveal_strlit("1");
    reveal_strlit("2");
    reveal_strlit("3");
    reveal_strlit("4");
    reveal_strlit("5");
    reveal_strlit("6");
    reveal_strlit("7");
    reveal_strlit("1°");
    reveal_strlit("2°");
    reveal_strlit("3°");
    reveal_strlit("4°");
    reveal_strlit("5°");
    reveal_strlit("6°");
    reveal_strlit("7°");
    reveal_strlit("1°°");
    reveal_strlit("2°°");
    reveal_strlit("3°°");
    reveal_strlit("A");
    reveal_strlit("B");
    reveal_strlit("C");
    reveal_strlit("D");
    reveal_strlit("E");
    reveal_strlit("F");
    reveal_strlit("G");
    reveal_strlit("A°");
    reveal_strlit("B°");
    reveal_strlit("C°");
    reveal_strlit("D°");
    reveal_strlit("E°");
    reveal_strlit("F°");
    reveal_strlit("G°");
    reveal_strlit("C°°");
    reveal_strlit("D°°");
    reveal_strlit("E°°");
    reveal_strlit("X");
    assert forall|k: int|
        0 <= k < numbers_layout_spec().len() implies ((#[trigger] numbers_layout_spec()[k])
        == "X"@ <==> letters_layout_spec()[k] == "X"@) by {
        let n = numbers_layout_spec()[k];
        let l = letters_layout_spec()[k];
        if n == "X"@ && l != "X"@ {
            assert(n[0] == "X"@[0]);
        }
        if n != "X"@ && l == "X"@ {
            assert(l[0] == "X"@[0]);
        }
    }
}

/// No slot token of either layout contains a newline, so writing tokens
/// never opens a line of its own.
pub proof fn lemma_layout_no_newline(style: TabStyle)
    ensures
        forall|k: int|
            0 <= k < kalimba_layout_spec(style).len() ==> !(#[trigger] kalimba_layout_spec(
                style,
            )[k]).contains('\n'),
{
    reveal_strlit("1");
    reveal_strlit("2");
    reveal_strlit("3");
    reveal_strlit("4");
    reveal_strlit("5");
    reveal_strlit("6");
    reveal_strlit("7");
    reveal_strlit("1°");
    reveal_strlit("2°");
    reveal_strlit("3°");
    reveal_strlit("4°");
    reveal_strlit("5°");
    reveal_strlit("6°");
    reveal_strlit("7°");
    reveal_strlit("1°°");
    reveal_strlit("2°°");
    reveal_strlit("3°°");
    reveal_strlit("A");
    reveal_strlit("B");
    reveal_strlit("C");
    reveal_strlit("D");
    reveal_strlit("E");
    reveal_strlit("F");
    reveal_strlit("G");
    reveal_strlit("A°");
    reveal_strlit("B°");
    reveal_strlit("C°");
    reveal_strlit("D°");
    reveal_strlit("E°");
    reveal_strlit("F°");
    reveal_strlit("G°");
    reveal_strlit("C°°");
    reveal_strlit("D°°");
    reveal_strlit("E°°");
    reveal_strlit("X");
    assert forall|k: int| 0 <= k < kalimba_layout_spec(style).len() implies !(
    #[trigger] kalimba_layout_spec(style)[k]).contains('\n') by {
        let t = kalimba_layout_spec(style)[k];
        if t.contains('\n') {
            let i = choose|i: int| 0 <= i < t.len() && t[i] == '\n';
            assert(t[i] == '\n');
        }
    }
}

/// The kalimba's ordered slot table for `style`; pure constant lookup.
pub fn kalimba_layout(style: TabStyle) -> (r: Vec<String>)
    ensures
        strs_view(r@) == kalimba_layout_spec(style),
{
    let mut r: Vec<String> = Vec::new();
    match style {
        TabStyle::Numbers => {
            r.push("1".to_owned());
            r.push("X".to_owned());
            r.push("2".to_owned());
            r.push("X".to_owned());
            r.push("3".to_owned());
            r.push("4".to_owned());
            r.push("X".to_owned());
            r.push("5".to_owned());
            r.push("X".to_owned());
            r.push("6".to_owned());
            r.push("X".to_owned());
            r.push("7".to_owned());
            r.push("1°".to_owned());
            r.push("X".to_owned());
            r.push("2°".to_owned());
            r.push("X".to_owned());
            r.push("3°".to_owned());
            r.push("4°".to_owned());
            r.push("X".to_owned());
            r.push("5°".to_owned());
            r.push("X".to_owned());
            r.push("6°".to_owned());
            r.push("X".to_owned());
            r.push("7°".to_owned());
            r.push("1°°".to_owned());
            r.push("X".to_owned());
            r.push("2°°".to_owned());
            r.push("X".to_owned());
            r.push("3°°".to_owned());
        },
        TabStyle::Letters => {
            r.push("C".to_owned());
            r.push("X".to_owned());
            r.push("D".to_owned());
            r.push("X".to_owned());
            r.push("E".to_owned());
            r.push("F".to_owned());
            r.push("X".to_owned());
            r.push("G".to_owned());
            r.push("X".to_owned());
            r.push("A".to_owned());
            r.push("X".to_owned());
            r.push("B".to_owned());
            r.push("C°".to_owned());
            r.push("X".to_owned());
            r.push("D°".to_owned());
            r.push("X".to_owned());
            r.push("E°".to_owned());
            r.push("F°".to_owned());
            r.push("X".to_owned());
            r.push("G°".to_owned());
            r.push("X".to_owned());
            r.push("A°".to_owned());
            r.push("X".to_owned());
            r.push("B°".to_owned());
            r.push("C°°".to_owned());
            r.push("X".to_owned());
            r.push("D°°".to_owned());
            r.push("X".to_owned());
            r.push("E°°".to_owned());
        },
    }
    proof {
        assert(strs_view(r@) =~= kalimba_layout_spec(style));
    }
    r
}

} // verus!
