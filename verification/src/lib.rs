//! Transposes tablature written for a diatonic harmonica into tablature for a
//! kalimba: each written note is read as a position in the harmonica's
//! chromatically ordered note table, shifted by a chosen number of semitones,
//! and re-expressed in the kalimba's note vocabulary. A companion search
//! reports every semitone shift that keeps the whole tab playable on the
//! kalimba, labelled with the musical key it lands in.

pub mod app;
pub mod kalimba;
pub mod keys;
pub mod text;
pub mod transpose;
pub mod tuning;

pub use app::App;
pub use kalimba::TabStyle;
pub use keys::get_playable_keys;
pub use transpose::transpose_tabs;
