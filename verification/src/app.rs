//! The editor's state: the raw harmonica tab, the latest kalimba output
//! and its unmapped-token text, and the user's chosen offset, style and
//! harmonica position. The surrounding user interface owns the widgets and
//! calls in here on every relevant edit.

use vstd::prelude::*;
use crate::kalimba::{kalimba_layout_spec, TabStyle};
use crate::keys::{get_playable_keys, keys_view, playable_keys_spec};
use crate::text::{join_spec, join_with_spaces};
use crate::transpose::{transpose_errs_spec, transpose_out_spec, transpose_tabs};
use crate::tuning::{tuning_enharmonics_spec, tuning_notes_spec};

verus! {

/// The transposition editor's state.
pub struct App {
    /// The harmonica tab being edited.
    pub input_tab: String,
    /// The most recently computed kalimba tab.
    pub output_tab: String,
    /// The most recently computed unmapped tokens, space-separated.
    pub error_text: String,
    /// The chosen semitone shift.
    pub semitone_offset: i32,
    /// The most recently computed playable keys.
    pub playable_keys: Vec<(&'static str, i32)>,
    /// The chosen output vocabulary.
    pub tab_style: TabStyle,
    /// The harmonica position shown by the editor. The single supported
    /// tuning names one physical note table whatever the position, so the
    /// value does not enter the computation.
    pub input_position: i32,
}

/// The demonstration tab the editor opens with.
pub open spec fn default_tab_spec() -> Seq<char> {
    "4 -4 5 6 6 -6 6 5 4 -4 5 5 -4 4 -4\n4 -4 5 6 6 -6 6 5 4 -4 5 5 -4 -4 4 \n\n-5 -5 -6 -6 -6 6 5 4 -4 5 \n4 -4 5 6 6 -6 6 5 4 -4 5 5 -4 -4 4"@
}

impl Default for App {
    /// The editor's initial state: the demonstration tab, nothing computed
    /// yet, no shift, scale-degree output, first position.
    fn default() -> (r: Self)
        ensures
            r.input_tab@ == default_tab_spec(),
            r.output_tab@ == Seq::<char>::empty(),
            r.error_text@ == Seq::<char>::empty(),
            r.semitone_offset == 0,
            r.playable_keys@ == Seq::<(&'static str, i32)>::empty(),
            r.tab_style is Numbers,
            r.input_position == 1,
    {
        App {
            input_tab:
                "4 -4 5 6 6 -6 6 5 4 -4 5 5 -4 4 -4\n4 -4 5 6 6 -6 6 5 4 -4 5 5 -4 -4 4 \n\n-5 -5 -6 -6 -6 6 5 4 -4 5 \n4 -4 5 6 6 -6 6 5 4 -4 5 5 -4 -4 4".to_owned(),
            output_tab: String::new(),
            error_text: String::new(),
            semitone_offset: 0,
            playable_keys: Vec::new(),
            tab_style: TabStyle::Numbers,
            input_position: 1,
        }
    }
}

impl App {
    /// Recomputes the kalimba output and the unmapped-token text from the
    /// current tab, offset and style, under the Richter tuning.
    pub fn transpose(&mut self)
        ensures
            final(self).output_tab@ == transpose_out_spec(
                old(self).input_tab@,
                tuning_notes_spec("richter"@),
                tuning_enharmonics_spec("richter"@),
                kalimba_layout_spec(old(self).tab_style),
                old(self).semitone_offset as int,
            ),
            final(self).error_text@ == join_spec(
                transpose_errs_spec(
                    old(self).input_tab@,
                    tuning_notes_spec("richter"@),
                    tuning_enharmonics_spec("richter"@),
                    kalimba_layout_spec(old(self).tab_style),
                    old(self).semitone_offset as int,
                ),
            ),
            final(self).input_tab == old(self).input_tab,
            final(self).semitone_offset == old(self).semitone_offset,
            final(self).playable_keys == old(self).playable_keys,
            final(self).tab_style == old(self).tab_style,
            final(self).input_position == old(self).input_position,
    {
        let (tabs, errors) = transpose_tabs(
            self.input_tab.as_str(),
            self.semitone_offset,
            "richter",
            self.tab_style,
        );
        self.output_tab = tabs;
        self.error_text = join_with_spaces(&errors);
    }

    /// Recomputes the playable keys for the current tab under the Richter
    /// tuning.
    pub fn refresh_playable_keys(&mut self)
        ensures
            keys_view(final(self).playable_keys@) == playable_keys_spec(
                old(self).input_tab@,
                "richter"@,
            ),
            final(self).input_tab == old(self).input_tab,
            final(self).output_tab == old(self).output_tab,
            final(self).error_text == old(self).error_text,
            final(self).semitone_offset == old(self).semitone_offset,
            final(self).tab_style == old(self).tab_style,
            final(self).input_position == old(self).input_position,
    {
        self.playable_keys = get_playable_keys(self.input_tab.as_str(), "richter");
    }
}

} // verus!
