//! The rules on translations, read when the `i18n` feature is on.
pub mod source_files;
pub mod locale_files;
pub mod missing_keys;
pub mod dynamic_keys;
pub mod locale_parity;
