//! Interactive front end of a password vault: the keystroke policy of the
//! secret prompt, the colour cue shown while a secret is typed, the menus that
//! walk the vault's entries and fields, and the plan that commits an edit.

mod text;

pub mod fingerprint;
pub mod capture;
pub mod menu;
pub mod entry;
pub mod navigator;
pub mod commit;
