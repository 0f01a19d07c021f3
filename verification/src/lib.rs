//! The logic of hailsPlay, a media-queue server that turns URLs into audio tracks played
//! by MPD.
//!
//! The library decides; its caller does the input and output. The caller spawns the
//! extractor, talks to MPD and to the database and serves HTTP, and at every step asks
//! the library what the bytes it read mean and what is to be done next.
//!
//! - [`ytdlp`]: the output of the extractor and the two phases of a download.
//! - [`archive`]: the registry of downloads, in memory and archived.
//! - [`media`] and [`range`]: the body of a range response over a file that is still
//!   growing, and the part of it that a range asks for.
//! - [`mpd`]: the protocol of MPD and the state it reports.
//! - [`player`], [`metadata`], [`session`] and [`protocol`]: what clients are told.
//! - [`maint`]: the upkeep of MPD's queue.
//! - [`asset`], [`mime`], [`fs`], [`migrate`], [`http`] and [`config`]: assets, media
//!   types, scratch paths, the schema, responses and settings.
//! - [`text`]: text as sequences of characters.

pub mod archive;
pub mod asset;
pub mod config;
pub mod fs;
pub mod http;
pub mod maint;
pub mod media;
pub mod metadata;
pub mod migrate;
pub mod mime;
pub mod mpd;
pub mod player;
pub mod protocol;
pub mod range;
pub mod session;
pub mod text;
pub mod ytdlp;
