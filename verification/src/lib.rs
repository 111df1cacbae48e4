//! Japanese calendar reckoning: era years, traditional month names, the
//! sexagenary cycle, the temporal-hour clock, seasonal days, holidays and
//! moon-phase messages.

pub mod date;
pub mod text;
pub mod koyomi;
pub mod holidays;
pub mod i18n;
pub mod moonface;
pub mod display;
pub mod cli;
