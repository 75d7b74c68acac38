//! Verified core of the BitDMX lighting controller: the DMX channel and
//! switch model, the chaser bookkeeping, the network and interface frame
//! formats and the fixture description parser.

pub mod types;
pub mod protocol;
pub mod text;
pub mod chaser;
pub mod fade_curve;
pub mod channel;
pub mod console;
pub mod channel_groups;
pub mod fixture;
pub mod switch;
pub mod stage;
pub mod interface;
pub mod dmx_parser;
pub mod editor;
pub mod fixture_editor;
pub mod assets;
pub mod watchdog;
