//! The mathematical model of a hex dump.
//!
//! `dump_view` maps `(data, settings, offset, start_line, line_count)` to the
//! exact character sequence the renderer must produce.  The text is built
//! line by line (`render_lines`), each line group by group (`scan_groups`),
//! and each group from the hex digits of its visible bytes plus a
//! placeholder run for bytes that are out of bounds or before the offset
//! (`group_piece`).

use vstd::prelude::*;
use crate::chars::{hex_digit, hex_padded, repeated};
use crate::settings::{HexDumpSettings, group_size_ok};

verus! {

/// The two hex digits of one byte, high nibble first.
pub open spec fn byte_hex(b: u8, uppercase: bool) -> Seq<char> {
    seq![hex_digit(b as int / 16, uppercase), hex_digit(b as int % 16, uppercase)]
}

/// Hex digits of `data[lo..hi]`, first byte printed leftmost.
pub open spec fn bytes_hex_be(data: Seq<u8>, lo: int, hi: int, uppercase: bool) -> Seq<char>
    decreases hi - lo,
{
    if lo >= hi {
        Seq::empty()
    } else {
        byte_hex(data[lo], uppercase) + bytes_hex_be(data, lo + 1, hi, uppercase)
    }
}

/// Hex digits of `data[lo..hi]`, first byte printed rightmost.
pub open spec fn bytes_hex_le(data: Seq<u8>, lo: int, hi: int, uppercase: bool) -> Seq<char>
    decreases hi - lo,
{
    if lo >= hi {
        Seq::empty()
    } else {
        byte_hex(data[hi - 1], uppercase) + bytes_hex_le(data, lo, hi - 1, uppercase)
    }
}

/// The configured placeholder prefix, as characters.
pub open spec fn prefix_view(s: HexDumpSettings) -> Seq<char> {
    match s.hex_out_error_prefix {
        Some(p) => p@,
        None => Seq::empty(),
    }
}

/// The configured placeholder postfix, as characters.
pub open spec fn postfix_view(s: HexDumpSettings) -> Seq<char> {
    match s.hex_out_error_postfix {
        Some(p) => p@,
        None => Seq::empty(),
    }
}

/// A run of `q` placeholder characters, wrapped in the configured
/// prefix and postfix.
pub open spec fn placeholder_run(s: HexDumpSettings, q: int) -> Seq<char> {
    prefix_view(s) + repeated('?', q) + postfix_view(s)
}

/// The hex column text of the group starting at `gstart`.
///
/// A group whose bytes all lie before `off` is a blank of spaces.  Otherwise
/// the group shows the hex digits of its visible bytes and a placeholder run
/// standing for the missing ones: bytes at or past `data.len()` (out of
/// bounds), or, failing that, bytes before `off`.  The placeholder run sits
/// at the leading digits exactly when big-endian packing differs from the
/// out-of-bounds case — out-of-bounds bytes hide trailing digits in
/// big-endian but leading digits in little-endian, and before-offset bytes
/// the other way around:
///
/// big-endian | out-of-bounds | run at leading digits
///   false    |    false      |   false
///   false    |    true       |   true
///   true     |    false      |   true
///   true     |    true       |   false
pub open spec fn group_piece(data: Seq<u8>, s: HexDumpSettings, off: int, gstart: int) -> Seq<
    char,
> {
    let gs = s.group_size as int;
    let gend = gstart + gs;
    if gend <= off {
        repeated(' ', 2 * gs)
    } else {
        let oob = if gend > data.len() {
            gend - data.len()
        } else {
            0
        };
        let before = if gstart < off {
            off - gstart
        } else {
            0
        };
        if oob > 0 {
            let q = if 2 * oob > 2 * gs {
                2 * gs
            } else {
                2 * oob
            };
            if s.big_endian {
                bytes_hex_be(data, gstart, data.len() as int, s.uppercase) + placeholder_run(s, q)
            } else {
                placeholder_run(s, q) + bytes_hex_le(data, gstart, data.len() as int, s.uppercase)
            }
        } else if before > 0 {
            let q = 2 * before;
            if s.big_endian {
                placeholder_run(s, q) + bytes_hex_be(data, off, gend, s.uppercase)
            } else {
                bytes_hex_le(data, off, gend, s.uppercase) + placeholder_run(s, q)
            }
        } else {
            if s.big_endian {
                bytes_hex_be(data, gstart, gend, s.uppercase)
            } else {
                bytes_hex_le(data, gstart, gend, s.uppercase)
            }
        }
    }
}

/// The ASCII sidebar character for the byte position `p`: a space for a
/// position out of bounds or before the offset, the byte's glyph if it is
/// printable, `.` otherwise.
pub open spec fn ascii_char_at(data: Seq<u8>, off: int, p: int) -> char {
    if p >= data.len() || p < off {
        ' '
    } else if 0x20 <= data[p] < 0x80 {
        data[p] as char
    } else {
        '.'
    }
}

/// The ASCII sidebar characters for the positions `lo..hi`.
pub open spec fn ascii_run(data: Seq<u8>, off: int, lo: int, hi: int) -> Seq<char>
    decreases hi - lo,
{
    if lo >= hi {
        Seq::empty()
    } else {
        seq![ascii_char_at(data, off, lo)] + ascii_run(data, off, lo + 1, hi)
    }
}

/// What scanning the groups of one line produces: the accumulated hex and
/// ASCII column text, how many groups were completed, and how the line
/// ended.  A line whose next group would run past the scan end is dropped:
/// it produces no text at all and ends the dump.
pub struct LineScan {
    /// The hex column text (group separators and centerline gap included).
    pub hex: Seq<char>,
    /// The ASCII sidebar text (centerline gap included).
    pub ascii: Seq<char>,
    /// The number of completed groups.
    pub groups: int,
    /// Whether the last group ended exactly at the scan end.
    pub is_last: bool,
    /// How many bytes of the last group lay past the end of the data.
    pub oob: int,
    /// Whether the line was abandoned because a group would overrun the
    /// scan end.
    pub dropped: bool,
}

/// The canonical result for a dropped line.
pub open spec fn dropped_line() -> LineScan {
    LineScan { hex: Seq::empty(), ascii: Seq::empty(), groups: 0, is_last: false, oob: 0, dropped: true }
}

/// Scans the groups of the line starting at `ls`, beginning with group
/// index `j` at byte position `gstart`.  A line closes after the group that
/// fills it (`groups_per_line` reached), the group that reaches the scan
/// `end`, or a group containing an out-of-bounds byte, whichever comes
/// first.
pub open spec fn scan_groups(
    data: Seq<u8>,
    s: HexDumpSettings,
    off: int,
    end: int,
    gstart: int,
    j: int,
) -> LineScan
    decreases end - gstart,
{
    let gs = s.group_size as int;
    let gpl = s.groups_per_line as int;
    if gs < 1 {
        dropped_line()
    } else {
        let gend = gstart + gs;
        if gend > end {
            dropped_line()
        } else {
            let sep: Seq<char> = if j >= 1 {
                seq![' ']
            } else {
                Seq::empty()
            };
            let ctr: Seq<char> = if j + 1 == gpl / 2 && s.show_centerline {
                seq![' ']
            } else {
                Seq::empty()
            };
            let hexpiece = sep + group_piece(data, s, off, gstart) + ctr;
            let asciipiece: Seq<char> = if s.show_ascii {
                ascii_run(data, off, gstart, gend) + ctr
            } else {
                Seq::empty()
            };
            let oob = if gend > data.len() {
                gend - data.len()
            } else {
                0
            };
            let is_last = gend == end;
            if j + 1 == gpl || is_last || oob > 0 {
                LineScan {
                    hex: hexpiece,
                    ascii: asciipiece,
                    groups: j + 1,
                    is_last,
                    oob,
                    dropped: false,
                }
            } else {
                let rest = scan_groups(data, s, off, end, gend, j + 1);
                if rest.dropped {
                    dropped_line()
                } else {
                    LineScan {
                        hex: hexpiece + rest.hex,
                        ascii: asciipiece + rest.ascii,
                        groups: rest.groups,
                        is_last: rest.is_last,
                        oob: rest.oob,
                        dropped: false,
                    }
                }
            }
        }
    }
}

/// Scans the whole line starting at `ls`.
pub open spec fn line_scan(data: Seq<u8>, s: HexDumpSettings, off: int, end: int, ls: int) -> LineScan {
    scan_groups(data, s, off, end, ls, 0)
}

/// The text of one closed line: optional address head, hex column, ASCII
/// sidebar between `|` delimiters, and — on a terminal line — space padding
/// that keeps the columns aligned with the full lines above it: each
/// unfilled group is padded as wide as a printed one with its separator,
/// and one extra space stands in for the centerline gap when that gap falls
/// within the padded region.
/// The extra space the centerline gap takes on a terminal line when the
/// gap falls within the padded region rather than the printed groups.
pub open spec fn centerline_pad(s: HexDumpSettings, sc: LineScan) -> int {
    let gpl = s.groups_per_line as int;
    if s.show_centerline && gpl / 2 >= 1 && sc.groups < gpl / 2 {
        1
    } else {
        0
    }
}

/// How many spaces pad the hex column of a terminal line: each unfilled
/// group is padded as wide as a printed one with its separator, plus the
/// centerline gap when it falls within the padding.
pub open spec fn hexpad_len(s: HexDumpSettings, sc: LineScan) -> int {
    let gs = s.group_size as int;
    let gpl = s.groups_per_line as int;
    if (sc.is_last || sc.oob > 0) && s.show_ascii {
        let unfilled = if gpl > sc.groups {
            gpl - sc.groups
        } else {
            0
        };
        unfilled * (2 * gs + 1) + centerline_pad(s, sc)
    } else {
        0
    }
}

/// How many spaces pad the ASCII sidebar of a terminal line: one per
/// unscanned byte, plus the centerline gap when it falls within the
/// padding.
pub open spec fn asciipad_len(s: HexDumpSettings, sc: LineScan) -> int {
    let gs = s.group_size as int;
    let gpl = s.groups_per_line as int;
    let bpl = gs * gpl;
    if (sc.is_last || sc.oob > 0) && s.show_ascii {
        let padl = if bpl > sc.groups * gs {
            bpl - sc.groups * gs
        } else {
            0
        };
        padl + centerline_pad(s, sc)
    } else {
        0
    }
}

pub open spec fn line_text(s: HexDumpSettings, sc: LineScan, addr: int) -> Seq<char> {
    let head: Seq<char> = if s.show_offset {
        hex_padded(addr + s.address_origin, s.address_width as int) + ": "@
    } else {
        Seq::empty()
    };
    let tail: Seq<char> = if s.show_ascii {
        " |"@ + sc.ascii + repeated(' ', asciipad_len(s, sc)) + "|"@
    } else {
        Seq::empty()
    };
    head + sc.hex + repeated(' ', hexpad_len(s, sc)) + tail
}

/// What the line starting at `ls` adds to the dump: its text plus a newline
/// unless it is the line that reaches the scan end; nothing if it is
/// dropped.
pub open spec fn line_contrib(data: Seq<u8>, s: HexDumpSettings, off: int, end: int, ls: int) -> Seq<char> {
    let sc = line_scan(data, s, off, end, ls);
    if sc.dropped {
        Seq::empty()
    } else {
        line_text(s, sc, ls) + (if sc.is_last {
            Seq::<char>::empty()
        } else {
            "\n"@
        })
    }
}

/// Whether the dump goes on after the line starting at `ls`.
pub open spec fn line_continues(data: Seq<u8>, s: HexDumpSettings, off: int, end: int, ls: int) -> bool {
    let sc = line_scan(data, s, off, end, ls);
    !sc.dropped && !sc.is_last && sc.oob == 0
}

/// The dump text from line start `ls` up to the scan end.
pub open spec fn render_lines(data: Seq<u8>, s: HexDumpSettings, off: int, end: int, ls: int) -> Seq<char>
    decreases end - ls,
{
    let bpl = s.group_size as int * s.groups_per_line as int;
    if ls >= end {
        Seq::empty()
    } else {
        let c = line_contrib(data, s, off, end, ls);
        if bpl >= 1 && ls + bpl <= end && line_continues(data, s, off, end, ls) {
            c + render_lines(data, s, off, end, ls + bpl)
        } else {
            c
        }
    }
}

/// `x` rounded up to the next multiple of `m` (identity when `m < 1`).
pub open spec fn round_up_to(x: int, m: int) -> int {
    if m < 1 {
        x
    } else {
        x + ((m - x % m) % m)
    }
}

/// `x` rounded down to a multiple of `m` (identity when `m < 1`).
pub open spec fn round_down_to(x: int, m: int) -> int {
    if m < 1 {
        x
    } else {
        x - x % m
    }
}

/// The exclusive end of the byte scan: the data length when all lines are
/// requested, otherwise the requested window capped at the data length;
/// in both cases rounded up to a group boundary so the window never
/// truncates mid-group.
pub open spec fn scan_end(len: int, s: HexDumpSettings, off: int, sl: int, lc: int) -> int {
    let bpl = s.group_size as int * s.groups_per_line as int;
    let e0 = if lc == 0 {
        len
    } else if off + (sl + lc) * bpl < len {
        off + (sl + lc) * bpl
    } else {
        len
    };
    round_up_to(e0, s.group_size as int)
}

/// The first scanned byte position: `off` advanced by the skipped lines,
/// snapped down to a whole line span when addresses are aligned.
pub open spec fn scan_start(s: HexDumpSettings, off: int, sl: int) -> int {
    let bpl = s.group_size as int * s.groups_per_line as int;
    let s0 = off + sl * bpl;
    if s.align_address {
        round_down_to(s0, bpl)
    } else {
        s0
    }
}

/// The full dump text for a render request.
pub open spec fn dump_view(data: Seq<u8>, s: HexDumpSettings, off: int, sl: int, lc: int) -> Seq<char> {
    render_lines(
        data,
        s,
        off,
        scan_end(data.len() as int, s, off, sl, lc),
        scan_start(s, off, sl),
    )
}

/// Whether a render request passes validation: the group size is in range
/// and, in strict mode, the offset aligns with it.
pub open spec fn render_admissible(s: HexDumpSettings, off: int) -> bool {
    group_size_ok(s) && !(s.strict && off % (s.group_size as int) != 0)
}

/// The machine limits under which the renderer's address and window
/// arithmetic stays within `usize`.
pub open spec fn arith_ok(len: int, s: HexDumpSettings, off: int, sl: int, lc: int) -> bool {
    let bpl = s.group_size as int * s.groups_per_line as int;
    &&& sl + lc <= usize::MAX
    &&& off + (sl + lc) * bpl <= usize::MAX
    &&& 3 * bpl + 2 <= usize::MAX
    &&& len + 32 <= usize::MAX
    &&& s.address_origin + len + 32 <= usize::MAX
}

} // verus!
