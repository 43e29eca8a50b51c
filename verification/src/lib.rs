//! Radio-telephony phrases for language-proficiency training.
//!
//! The crate composes aviation phrases whose values are drawn by chance
//! (runways, flight levels, squawks, pressure settings, frequencies, winds,
//! arrival-information bulletins and mixed messages) and renders them into
//! the form that is handed to a speech engine.
//!
//! Every function carries a contract over the text it produces, and Verus
//! proves each of them. What is taken on trust is little and is marked as
//! such: the draws of the `rand` crate in [`random`], and that `String::push`
//! appends a character, in [`text`].
//!
//! * [`numerals`], [`text`]: decimal numerals and operations on text.
//! * [`alphabet`], [`voices`], [`config`]: the tables and the configuration.
//! * [`phrases`], [`free_text`], [`atis`], [`any_message`]: what each phrase
//!   and each message is, for given values.
//! * [`elp_service`]: the generators, which draw the values.
//! * [`say_form`], [`speech`]: what is spoken and printed of a message.
//! * [`phrase_laws`], [`mark_laws`]: what holds of every phrase.

pub mod alphabet;
pub mod any_message;
pub mod atis;
pub mod config;
pub mod elp_service;
pub mod free_text;
pub mod mark_laws;
pub mod numerals;
pub mod phrase_laws;
pub mod phrases;
pub mod random;
pub mod say_form;
pub mod speech;
pub mod text;
pub mod voices;
