//! # libosu
//!
//! Data structures and parsers for osu! files: the binary primitives shared by
//! `osu!.db` and replay files, the database and replay readers, the text
//! formats of beatmaps and their lines (colours, hit samples, events, timing
//! points, hit objects), lookups by time in a beatmap, and the values of the
//! web API.
//!
//! Every parser here works on bytes or characters held in memory and carries a
//! contract that states, in terms of a specification of the file format, which
//! value it returns and on which inputs it fails. Writers are stated the same
//! way. For the binary strings and numbers, the lines of a beatmap and
//! whole beatmaps in the current layout (`Beatmap::to_string` read by
//! `Beatmap::from_str`, and `Beatmap::as_osz` read by `Beatmap::from_osz`,
//! which leaves the events out), what is written is proved to read back as
//! what was written, for the values the format can hold.

pub mod binary;
pub mod enums;
pub mod db;
pub mod text;
pub mod replay;
pub mod errors;
pub mod hitsounds;
pub mod color;
pub mod math;
pub mod events;
pub mod fields;
pub mod timing;
pub mod hitobject;
pub mod sorting;
pub mod beatmap;
pub mod beatmap_roundtrip;
pub mod beatmap_sections;
pub mod beatmap_lists;
pub mod beatmap_laws;
pub mod beatmap_osz;
pub mod beatmap_osz_laws;
pub mod api;
pub mod pp;
pub mod rosu;
pub mod lookup;
