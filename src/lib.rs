//! Shows one instant on the clocks of several time zones.
//!
//! A time written `HH:MM`, and maybe a date written `YYYY-MM-DD`, is read in
//! UTC or in the machine's local zone and resolved to one instant
//! (`resolve`); that instant is then rendered as `HH:MM` in each zone of a
//! fixed list (`zones`). The time zone rules come from chrono and chrono-tz.

pub mod calendar;
pub mod resolve;
pub mod text;
pub mod zones;
