//! Verified building blocks of a small suite of command-line utilities.
//!
//! Every module holds the decision logic of one tool as functions on plain
//! values; reading input, spawning processes and printing are left to the
//! program that links this library. The largest part is [`parallel`], which
//! runs many commands under a cap on how many run at once.
//!
//! Four outside crates take part in the logic and are reached through small
//! functions whose contracts are believed, not proved: `lexopt` splits the
//! command lines (`arguments`), `regex` finds text (`patterns`), `chrono`
//! reads and writes times (`ts`), and `rand` picks temporary names (`vidir`).
//! Each of those functions says in its documentation what is taken on trust.

pub mod arguments;
pub mod ascii;
pub mod chronic;
pub mod combine;
pub mod common;
pub mod errno;
pub mod ifdata;
pub mod ifne;
pub mod isutf8;
pub mod mispipe;
pub mod parallel;
pub mod patterns;
pub mod pee;
pub mod sponge;
pub mod status;
pub mod text;
pub mod tools;
pub mod ts;
pub mod vidir;
pub mod vipe;
pub mod zrun;
