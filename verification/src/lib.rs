//! Verified core of a DVB-T electronic-program-guide grabber.
//!
//! The library covers the PSI/SI section engine (PAT, PMT, SDT and EIT
//! parsing), DVB text decoding, MJD+BCD time decoding, the channel-file and
//! scan-file formats, and the tuning-parameter vocabularies.  Device I/O
//! (frontend and demux file descriptors) lives outside the library; the
//! functions here take section bytes and plain values and return parsed
//! records with proved contracts.

pub mod channel;
pub mod dmx;
pub mod dvb_device;
pub mod dvbtext;
pub mod eit;
pub mod linetext;
pub mod scan;
pub mod sections;
pub mod strutil;
pub mod timecode;
pub mod tuner;
pub mod xmltext;

