//! The logic of a git server's REST API: who may do what, which git commands
//! that takes, and what the answers are.
//!
//! Nothing here touches the disk or runs git. An operation is a function of the
//! request and of the replies that the outside world has given so far. It asks
//! for one more piece of [`work`], or it is done. Whoever runs it performs the
//! work, adds the reply and calls it again; a [`search`] keeps its state in
//! between.
//!
//! - [`work`]: what can be asked of the outside world, and what it replies
//! - [`errors`]: the errors that requests are refused with
//! - [`pathing`]: the paths of bare repositories
//! - [`metadata`]: the metadata beside a repository
//! - [`authz`]: who may read and change what
//! - [`git`]: git commands, the steps of a write, and the write lock
//! - [`output`]: what git prints
//! - [`repositories`]: listing, making and removing repositories, and profiles
//! - [`browse`]: branches, commits, trees, files and diffs
//! - [`files`]: writing files
//! - [`settings`]: settings, stars and collaborators
//! - [`search`]: searching repositories and commits
//! - [`server`]: how the server is set up
//! - [`types`]: what requests bring and answers hold
//! - [`text`], [`split`], [`number`]: reading and writing text
//! - [`outside`]: the calls into other crates
//! - [`printing`]: the text that git prints, and that it is read for what it says
//! - [`laws`]: what holds of the library as a whole, and of each operation
//! - [`model`]: a model of git, and what writes and reads come to in it

pub mod authz;
pub mod browse;
pub mod errors;
pub mod files;
pub mod git;
pub mod laws;
pub mod metadata;
pub mod model;
pub mod number;
pub mod output;
pub mod outside;
pub mod pathing;
pub mod printing;
pub mod repositories;
pub mod search;
pub mod server;
pub mod settings;
pub mod split;
pub mod text;
pub mod types;
pub mod work;
