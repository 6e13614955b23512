//! Streaming Vorbis decode state machine and plain data records for a
//! windowing / rendering / audio binding layer.

pub mod app;
pub mod gfx;
pub mod gfx_desc;
pub mod sys_gfx;
pub mod vorbis;
pub mod vorbis_laws;
