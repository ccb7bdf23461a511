//! A hex-dump renderer: formats a byte buffer as lines of grouped
//! hexadecimal values with an optional address column and ASCII sidebar.
//!
//! The whole rendering pipeline is specified against a mathematical model
//! of the output text (a `Seq<char>`), and the executable renderer is
//! proved to produce exactly the modelled text.

mod api;
mod chars;
mod laws;
mod model;
mod render;
mod settings;

pub use api::HexOut;
pub use laws::lemma_render_deterministic;
pub use laws::lemma_start_line_past_end;
pub use laws::lemma_strict_gate;
pub use laws::lemma_windowing;
pub use model::arith_ok;
pub use model::dump_view;
pub use model::render_admissible;
pub use render::hex_dump;
pub use settings::HexDumpSettings;
pub use settings::HexOutError;
pub use settings::default_settings;
pub use settings::error_message;
pub use settings::error_debug_text;
pub use settings::group_size_ok;
