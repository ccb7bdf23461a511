//! The convenience trait that exposes the renderer on byte slices.

use vstd::prelude::*;
use crate::model::{arith_ok, dump_view, render_admissible};
use crate::settings::{default_settings, group_size_ok, HexDumpSettings, HexOutError};

verus! {

/// Hex-dump capability for byte-slice-like values.  Every method forwards
/// to `hex_dump` with `offset = 0`, substituting default settings or the
/// full line window where the caller gave none.
pub trait HexOut {
    /// The bytes a dump of this value shows.
    spec fn bytes(&self) -> Seq<u8>;

    /// The whole value under default settings.
    fn hex_dump(&self) -> (r: Result<String, HexOutError>)
        requires
            arith_ok(self.bytes().len() as int, default_settings(), 0, 0, 0),
        ensures
            r matches Ok(t) && t@ == dump_view(self.bytes(), default_settings(), 0, 0, 0),
    ;

    /// A line window of the value under default settings.
    fn hex_dump_lines(&self, start_line: usize, line_count: usize) -> (r: Result<
        String,
        HexOutError,
    >)
        requires
            arith_ok(
                self.bytes().len() as int,
                default_settings(),
                0,
                start_line as int,
                line_count as int,
            ),
        ensures
            r matches Ok(t) && t@ == dump_view(
                self.bytes(),
                default_settings(),
                0,
                start_line as int,
                line_count as int,
            ),
    ;

    /// The whole value under the given settings.
    fn hex_dump_with_settings(&self, settings: HexDumpSettings) -> (r: Result<
        String,
        HexOutError,
    >)
        requires
            render_admissible(settings, 0) ==> arith_ok(
                self.bytes().len() as int,
                settings,
                0,
                0,
                0,
            ),
        ensures
            !group_size_ok(settings) ==> r == Err::<String, HexOutError>(
                HexOutError::InvalidGroupSize,
            ),
            render_admissible(settings, 0) ==> (r matches Ok(t) && t@ == dump_view(
                self.bytes(),
                settings,
                0,
                0,
                0,
            )),
    ;

    /// A line window of the value under the given settings.
    fn hex_dump_lines_with_settings(
        &self,
        settings: HexDumpSettings,
        start_line: usize,
        line_count: usize,
    ) -> (r: Result<String, HexOutError>)
        requires
            render_admissible(settings, 0) ==> arith_ok(
                self.bytes().len() as int,
                settings,
                0,
                start_line as int,
                line_count as int,
            ),
        ensures
            !group_size_ok(settings) ==> r == Err::<String, HexOutError>(
                HexOutError::InvalidGroupSize,
            ),
            render_admissible(settings, 0) ==> (r matches Ok(t) && t@ == dump_view(
                self.bytes(),
                settings,
                0,
                start_line as int,
                line_count as int,
            )),
    ;
}

impl HexOut for &[u8] {
    open spec fn bytes(&self) -> Seq<u8> {
        (**self)@
    }

    fn hex_dump(&self) -> (r: Result<String, HexOutError>) {
        crate::render::hex_dump(*self, &HexDumpSettings::default(), 0, 0, 0)
    }

    fn hex_dump_lines(&self, start_line: usize, line_count: usize) -> (r: Result<
        String,
        HexOutError,
    >) {
        crate::render::hex_dump(*self, &HexDumpSettings::default(), 0, start_line, line_count)
    }

    fn hex_dump_with_settings(&self, settings: HexDumpSettings) -> (r: Result<
        String,
        HexOutError,
    >) {
        crate::render::hex_dump(*self, &settings, 0, 0, 0)
    }

    fn hex_dump_lines_with_settings(
        &self,
        settings: HexDumpSettings,
        start_line: usize,
        line_count: usize,
    ) -> (r: Result<String, HexOutError>) {
        crate::render::hex_dump(*self, &settings, 0, start_line, line_count)
    }
}

} // verus!
