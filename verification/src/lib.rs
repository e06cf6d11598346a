//! A Bib(La)TeX front end: a streaming tokenizer driven by a state machine
//! over UTF-8 characters, a token-to-entry assembler, and the field-value
//! micro-parsers that coerce raw value strings into semantic types.

pub mod chars;
pub mod date;
pub mod edition;
pub mod entry;
pub mod entry_field;
pub mod entry_type;
pub mod laws;
pub mod literal;
pub mod numfmt;
pub mod pages;
pub mod person;
pub mod strutil;
pub mod tokenizer;
