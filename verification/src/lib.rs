//! Text rewriting and page decisions of the bundlrs paste service.
//!
//! - `text`: `str::replace` and `str::replacen`, proved against their
//!   specifications.
//! - `markdown`: the `e#...#` directives, style blocks and coloured text of
//!   board markdown.
//! - `regexes`: the regular-expression searches the markdown passes make.
//! - `boards`: who may see, post in, manage and delete in a board, and what
//!   each board page request is answered.
//! - `cli`: what the command-line client prints and how it ends.
//! - `default_return`: the service's answer envelope.
pub mod boards;
pub mod cli;
pub mod default_return;
pub mod markdown;
pub mod regexes;
pub mod text;
