pub mod text;
pub mod lexer;
pub mod diagnostic;
pub mod lang;
pub mod output;
pub mod json;
pub mod utils;
pub mod project;
pub mod format_i18n;
pub mod lint;
pub mod doctor;
pub mod check;
pub mod scan;
