//! mt2026: the verified core of a music-practice companion that plays a
//! do-mi-sol-do reference, listens to the singer aim at a scale degree, and
//! keeps every take in a plain-files archive.
//!
//! - [`theory`]: pitch classes, modes, keys, degrees and note numbers.
//! - [`meta`], [`session`]: the drill's upload metadata and state machine.
//! - [`drill`]: the drill screen's inbox filtering, timing and upload stamping.
//! - [`trace`]: the gap rule that splits a pitch trace into polylines.
//! - [`tracker`]: the streaming analysis-window scheduler of the pitch tracker.
//! - [`archive`]: ids, paths and audio facts minted on append; reading a
//!   day's log back line by line.
//! - [`server`]: upload checks, PCM decoding and startup configuration.
//! - [`client`]: the browser's upload metadata and PCM wire bytes.
//! - [`ui`]: the drill screen's prompts, key shortcuts and form fields.
//! - [`take`]: the free-take screen's record, tag and save loop.
//! - [`paths`], [`text`]: path construction and exact digit formatting.
pub mod archive;
pub mod client;
pub mod drill;
pub mod meta;
pub mod paths;
pub mod server;
pub mod take;
pub mod session;
pub mod text;
pub mod theory;
pub mod trace;
pub mod tracker;
pub mod ui;
