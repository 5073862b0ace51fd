//! The decisions behind moving media off a camera on the local network.
//!
//! The camera speaks plain HTTP on one fixed address. A sync lists its
//! media, downloads each file, and deletes a file on the camera once it is
//! stored locally. This crate holds everything of that which is decided
//! rather than performed:
//!
//! - [`endpoint`]: the address of every request, and which status counts as
//!   an answer;
//! - [`catalog`]: the listing and the order in which its files are visited;
//! - [`naming`]: the local file name of a download;
//! - [`orchestrator`]: the state machine that says, after each answer, what
//!   to request next;
//! - [`walk`]: what a whole run requests from a camera, proved from the
//!   state machine;
//! - [`stage`]: the top-level stages of one invocation and what is reported
//!   when one fails.
//!
//! Nothing here touches the network or the file system. A caller performs
//! the requests and hands the outcomes back.

pub mod catalog;
pub mod endpoint;
pub mod naming;
pub mod orchestrator;
pub mod stage;
pub mod walk;

pub use endpoint::format_req;
