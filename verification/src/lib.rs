//! A line-oriented text-stream filter, verified with Verus.
//!
//! The core is a processor that reads sources line by line, optionally
//! restricts output to an inclusive 1-based line range, and optionally
//! numbers lines — either every line, or only the non-blank ones with
//! their own running counter. Sources are processed in order and a
//! source that cannot be opened never disturbs the others.
//!
//! Alongside it live a range-string parser, a space-joining echo
//! helper, and a small in-memory record manager for employees grouped
//! into uniquely named departments.

use vstd::prelude::*;

mod company;
mod config;
mod echo;
mod format;
mod laws;
mod menu;
mod range;
mod text;

pub use company::Company;
pub use company::Department;
pub use company::Employee;
pub use company::Job;
pub use company::JobType;
pub use company::find_by_name;

pub use config::Config;
pub use config::in_range;
pub use config::nonblank_passing_upto;
pub use config::passing_upto;
pub use config::process_spec;
pub use config::process_upto;
pub use config::run;
pub use config::run_spec;
pub use config::run_upto;
pub use config::source_output;

pub use echo::join_words;
pub use echo::joined;

pub use format::dec_digit;
pub use format::dec_rep;
pub use format::format_numbered;
pub use format::numbered_line;
pub use format::pad_left6;
pub use format::spaces;
pub use format::u64_to_dec;

pub use laws::lemma_failed_source_isolated;
pub use laws::lemma_no_range_full_count;
pub use laws::lemma_number_all;
pub use laws::lemma_number_nonblank;
pub use laws::lemma_plain_identity;
pub use laws::lemma_process_deterministic;
pub use laws::lemma_range_count;

pub use menu::Menu;

pub use range::RangeError;
pub use range::all_digits;
pub use range::digit_val;
pub use range::digits_val;
pub use range::end_seg;
pub use range::find_char;
pub use range::is_digit;
pub use range::is_usize_num;
pub use range::parse_range;
pub use range::range_sep_idx;
pub use range::range_str_wf;
pub use range::start_seg;

pub use text::str_eq;
