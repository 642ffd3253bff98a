//! Verified library distilled from a collection of small Rust exercises:
//! a line-oriented text search (the `search` family and [`Config`]), a blog
//! post workflow modelled both as a runtime state machine ([`blog`]) and as
//! a family of types ([`blog_typed`]), a quota tracker that notifies a
//! [`tracker::Messenger`], word frequencies ([`tally`]), a
//! drawable-component screen ([`gui`]), and a number of small verified
//! utilities on strings, slices and options.

pub mod blog;
pub mod blog_typed;
pub mod events;
pub mod grep;
pub mod gui;
pub mod network;
pub mod options;
pub mod shapes;
pub mod tally;
pub mod text;
pub mod tracker;

pub use grep::Config;
pub use grep::contains_str;
pub use grep::isearch;
pub use grep::isearch_v0;
pub use grep::lines_of;
pub use grep::search;
pub use grep::search_v0;

pub use text::find_contains;
pub use text::first_word;
pub use text::first_word_advanced;
pub use text::first_word_slice;
pub use text::grapheme_count;
pub use text::graphemes;
pub use text::longest;
pub use text::question_mark_operator_on_option;
pub use text::shortest;
pub use text::static1;
pub use text::stringify_name_with_title_1;
pub use text::stringify_name_with_title_2;
pub use text::stringify_name_with_title_3;
pub use text::suf;

pub use options::MyBox;
pub use options::MyOption;
pub use options::first;
pub use options::largest;
pub use options::make_a_cloner_v1;
pub use options::make_a_cloner_v2;
pub use options::plus_one;
pub use options::rc1;
pub use options::remove_zeroes_inplace;

pub use tally::split_whitespace_of;
pub use tally::word_tally;

pub use shapes::Guess;
pub use shapes::Rectangle;
