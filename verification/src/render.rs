//! The executable renderer, proved to produce exactly the text that the
//! model in `model` describes.

use vstd::prelude::*;
use vstd::string::StringExecFns;
use crate::chars::{hex_digit, hex_digit_char, push_char, push_hex_padded, push_repeated};
use crate::model::{
    arith_ok, ascii_char_at, ascii_run, asciipad_len, byte_hex, bytes_hex_be, bytes_hex_le,
    dropped_line, dump_view, group_piece, hexpad_len, line_contrib, line_continues, line_scan,
    line_text, placeholder_run, render_admissible, render_lines, scan_end, scan_groups,
    scan_start, LineScan,
};
use crate::settings::{group_size_ok, HexDumpSettings, HexOutError};

verus! {

/// Splitting off the first byte of a big-endian digit run.
proof fn lemma_bytes_hex_be_snoc(data: Seq<u8>, lo: int, i: int, uppercase: bool)
    requires
        lo <= i,
    ensures
        bytes_hex_be(data, lo, i + 1, uppercase) == bytes_hex_be(data, lo, i, uppercase)
            + byte_hex(data[i], uppercase),
    decreases i - lo,
{
    if lo < i {
        lemma_bytes_hex_be_snoc(data, lo + 1, i, uppercase);
        assert(bytes_hex_be(data, lo, i + 1, uppercase) =~= bytes_hex_be(data, lo, i, uppercase)
            + byte_hex(data[i], uppercase));
    } else {
        assert(bytes_hex_be(data, lo, lo, uppercase) =~= Seq::<char>::empty());
        assert(bytes_hex_be(data, lo + 1, lo + 1, uppercase) =~= Seq::<char>::empty());
        assert(bytes_hex_be(data, lo, lo + 1, uppercase) == byte_hex(data[lo], uppercase)
            + bytes_hex_be(data, lo + 1, lo + 1, uppercase));
        assert(bytes_hex_be(data, lo, lo + 1, uppercase) =~= bytes_hex_be(data, lo, lo, uppercase)
            + byte_hex(data[lo], uppercase));
    }
}

/// Splitting off the last-printed byte of a little-endian digit run.
proof fn lemma_bytes_hex_le_peel(data: Seq<u8>, lo: int, hi: int, uppercase: bool)
    requires
        lo < hi,
    ensures
        bytes_hex_le(data, lo, hi, uppercase) == bytes_hex_le(data, lo + 1, hi, uppercase)
            + byte_hex(data[lo], uppercase),
    decreases hi - lo,
{
    if lo + 1 < hi {
        lemma_bytes_hex_le_peel(data, lo, hi - 1, uppercase);
        assert(bytes_hex_le(data, lo, hi, uppercase) =~= bytes_hex_le(data, lo + 1, hi, uppercase)
            + byte_hex(data[lo], uppercase));
    } else {
        assert(bytes_hex_le(data, lo, lo, uppercase) =~= Seq::<char>::empty());
        assert(bytes_hex_le(data, lo + 1, hi, uppercase) =~= Seq::<char>::empty());
        assert(bytes_hex_le(data, lo, hi, uppercase) == byte_hex(data[hi - 1], uppercase)
            + bytes_hex_le(data, lo, hi - 1, uppercase));
        assert(bytes_hex_le(data, lo, hi, uppercase) =~= bytes_hex_le(data, lo + 1, hi, uppercase)
            + byte_hex(data[lo], uppercase));
    }
}

/// Splitting off the last character of an ASCII sidebar run.
proof fn lemma_ascii_run_snoc(data: Seq<u8>, off: int, lo: int, i: int)
    requires
        lo <= i,
    ensures
        ascii_run(data, off, lo, i + 1) == ascii_run(data, off, lo, i) + seq![
            ascii_char_at(data, off, i),
        ],
    decreases i - lo,
{
    if lo < i {
        lemma_ascii_run_snoc(data, off, lo + 1, i);
        assert(ascii_run(data, off, lo, i + 1) =~= ascii_run(data, off, lo, i) + seq![
            ascii_char_at(data, off, i),
        ]);
    } else {
        assert(ascii_run(data, off, lo, lo) =~= Seq::<char>::empty());
        assert(ascii_run(data, off, lo + 1, lo + 1) =~= Seq::<char>::empty());
        assert(ascii_run(data, off, lo, lo + 1) == seq![ascii_char_at(data, off, lo)] + ascii_run(
            data,
            off,
            lo + 1,
            lo + 1,
        ));
        assert(ascii_run(data, off, lo, lo + 1) =~= ascii_run(data, off, lo, lo) + seq![
            ascii_char_at(data, off, lo),
        ]);
    }
}

/// Appends the two hex digits of `b`.
fn push_byte_hex(out: &mut String, b: u8, uppercase: bool)
    ensures
        final(out)@ == old(out)@ + byte_hex(b, uppercase),
{
    push_char(out, hex_digit_char(b / 16, uppercase));
    push_char(out, hex_digit_char(b % 16, uppercase));
    proof {
        assert(old(out)@.push(hex_digit(b as int / 16, uppercase)).push(
            hex_digit(b as int % 16, uppercase),
        ) =~= old(out)@ + byte_hex(b, uppercase));
    }
}

/// Appends the hex digits of `data[lo..hi]`, first byte leftmost.
fn push_bytes_hex_be(out: &mut String, data: &[u8], lo: usize, hi: usize, uppercase: bool)
    requires
        lo <= hi <= data@.len(),
    ensures
        final(out)@ == old(out)@ + bytes_hex_be(data@, lo as int, hi as int, uppercase),
{
    let mut i: usize = lo;
    proof {
        assert(old(out)@ + bytes_hex_be(data@, lo as int, lo as int, uppercase) =~= old(out)@);
    }
    while i < hi
        invariant
            lo <= i <= hi <= data@.len(),
            out@ == old(out)@ + bytes_hex_be(data@, lo as int, i as int, uppercase),
        decreases hi - i,
    {
        push_byte_hex(out, data[i], uppercase);
        proof {
            lemma_bytes_hex_be_snoc(data@, lo as int, i as int, uppercase);
            assert(old(out)@ + bytes_hex_be(data@, lo as int, i as int, uppercase) + byte_hex(
                data@[i as int],
                uppercase,
            ) =~= old(out)@ + bytes_hex_be(data@, lo as int, i + 1, uppercase));
        }
        i = i + 1;
    }
}

/// Appends the hex digits of `data[lo..hi]`, first byte rightmost.
fn push_bytes_hex_le(out: &mut String, data: &[u8], lo: usize, hi: usize, uppercase: bool)
    requires
        lo <= hi <= data@.len(),
    ensures
        final(out)@ == old(out)@ + bytes_hex_le(data@, lo as int, hi as int, uppercase),
{
    let mut i: usize = hi;
    proof {
        assert(old(out)@ + bytes_hex_le(data@, hi as int, hi as int, uppercase) =~= old(out)@);
    }
    while i > lo
        invariant
            lo <= i <= hi <= data@.len(),
            out@ == old(out)@ + bytes_hex_le(data@, i as int, hi as int, uppercase),
        decreases i,
    {
        i = i - 1;
        push_byte_hex(out, data[i], uppercase);
        proof {
            lemma_bytes_hex_le_peel(data@, i as int, hi as int, uppercase);
            assert(old(out)@ + bytes_hex_le(data@, i + 1, hi as int, uppercase) + byte_hex(
                data@[i as int],
                uppercase,
            ) =~= old(out)@ + bytes_hex_le(data@, i as int, hi as int, uppercase));
        }
    }
}

/// Computes the ASCII sidebar character for position `p`.
fn ascii_char_for(data: &[u8], offset: usize, p: usize) -> (c: char)
    ensures
        c == ascii_char_at(data@, offset as int, p as int),
{
    if p >= data.len() || p < offset {
        ' '
    } else {
        let b = data[p];
        if 0x20 <= b && b < 0x80 {
            b as char
        } else {
            '.'
        }
    }
}

/// Appends the ASCII sidebar characters for positions `lo..hi`.
fn push_ascii_run(out: &mut String, data: &[u8], offset: usize, lo: usize, hi: usize)
    requires
        lo <= hi,
    ensures
        final(out)@ == old(out)@ + ascii_run(data@, offset as int, lo as int, hi as int),
{
    let mut i: usize = lo;
    proof {
        assert(old(out)@ + ascii_run(data@, offset as int, lo as int, lo as int) =~= old(out)@);
    }
    while i < hi
        invariant
            lo <= i <= hi,
            out@ == old(out)@ + ascii_run(data@, offset as int, lo as int, i as int),
        decreases hi - i,
    {
        push_char(out, ascii_char_for(data, offset, i));
        proof {
            lemma_ascii_run_snoc(data@, offset as int, lo as int, i as int);
            assert((old(out)@ + ascii_run(data@, offset as int, lo as int, i as int)).push(
                ascii_char_at(data@, offset as int, i as int),
            ) =~= old(out)@ + ascii_run(data@, offset as int, lo as int, i + 1));
        }
        i = i + 1;
    }
}

/// Appends a run of `q` placeholder characters wrapped in the configured
/// prefix and postfix.
fn push_placeholder_run(out: &mut String, s: &HexDumpSettings, q: usize)
    ensures
        final(out)@ == old(out)@ + placeholder_run(*s, q as int),
{
    match &s.hex_out_error_prefix {
        Some(p) => out.append(p.as_str()),
        None => (),
    }
    push_repeated(out, '?', q);
    match &s.hex_out_error_postfix {
        Some(p) => out.append(p.as_str()),
        None => (),
    }
    proof {
        assert(out@ =~= old(out)@ + placeholder_run(*s, q as int));
    }
}

/// Appends the hex column text of the group starting at `gstart`.
fn push_group_piece(out: &mut String, data: &[u8], s: &HexDumpSettings, offset: usize, gstart: usize)
    requires
        group_size_ok(*s),
        gstart <= data@.len(),
        gstart + 32 <= usize::MAX,
    ensures
        final(out)@ == old(out)@ + group_piece(data@, *s, offset as int, gstart as int),
{
    let gs = s.group_size;
    let gend = gstart + gs;
    if gend <= offset {
        push_repeated(out, ' ', 2 * gs);
    } else {
        let len = data.len();
        let oob = if gend > len {
            gend - len
        } else {
            0
        };
        let before = if gstart < offset {
            offset - gstart
        } else {
            0
        };
        if oob > 0 {
            if s.big_endian {
                push_bytes_hex_be(out, data, gstart, len, s.uppercase);
                push_placeholder_run(out, s, 2 * oob);
            } else {
                push_placeholder_run(out, s, 2 * oob);
                push_bytes_hex_le(out, data, gstart, len, s.uppercase);
            }
        } else if before > 0 {
            if s.big_endian {
                push_placeholder_run(out, s, 2 * before);
                push_bytes_hex_be(out, data, offset, gend, s.uppercase);
            } else {
                push_bytes_hex_le(out, data, offset, gend, s.uppercase);
                push_placeholder_run(out, s, 2 * before);
            }
        } else {
            if s.big_endian {
                push_bytes_hex_be(out, data, gstart, gend, s.uppercase);
            } else {
                push_bytes_hex_le(out, data, gstart, gend, s.uppercase);
            }
        }
        proof {
            assert(out@ =~= old(out)@ + group_piece(data@, *s, offset as int, gstart as int));
        }
    }
}

/// Relates the text accumulated for the line starting at `ls` — with the
/// groups before index `j` already written to `line` and `ascii` — to the
/// scan of the whole line.
pub open spec fn scan_invariant(
    data: Seq<u8>,
    s: HexDumpSettings,
    off: int,
    end: int,
    ls: int,
    gstart: int,
    j: int,
    line: Seq<char>,
    ascii: Seq<char>,
) -> bool {
    let rest = scan_groups(data, s, off, end, gstart, j);
    &&& (rest.dropped ==> line_scan(data, s, off, end, ls) == dropped_line())
    &&& (!rest.dropped ==> line_scan(data, s, off, end, ls) == (LineScan {
        hex: line + rest.hex,
        ascii: ascii + rest.ascii,
        groups: rest.groups,
        is_last: rest.is_last,
        oob: rest.oob,
        dropped: false,
    }))
}

/// Computes how many spaces pad the hex column and the ASCII sidebar of a
/// closed line.
fn line_pads(
    s: &HexDumpSettings,
    used: usize,
    groups: usize,
    oob: usize,
    is_last: bool,
    Ghost(sc): Ghost<LineScan>,
) -> (p: (usize, usize))
    requires
        group_size_ok(*s),
        sc.groups == groups as int,
        sc.oob == oob as int,
        sc.is_last == is_last,
        used as int == sc.groups * s.group_size as int,
        3 * (s.group_size as int * s.groups_per_line as int) + 2 <= usize::MAX,
    ensures
        p.0 as int == hexpad_len(*s, sc),
        p.1 as int == asciipad_len(*s, sc),
{
    let gs = s.group_size;
    let gpl = s.groups_per_line;
    let terminal = is_last || oob > 0;
    let mut hexpadn: usize = 0;
    let mut asciipadn: usize = 0;
    if terminal && s.show_ascii {
        let bpl = gs * gpl;
        let unfilled = if gpl > groups {
            gpl - groups
        } else {
            0
        };
        let padl = if bpl > used {
            bpl - used
        } else {
            0
        };
        let ctr_pad: usize = if s.show_centerline && gpl / 2 >= 1 && groups < gpl / 2 {
            1
        } else {
            0
        };
        proof {
            assert(unfilled as int * (2 * gs as int + 1) <= 3 * (gs as int * gpl as int))
                by (nonlinear_arith)
                requires
                    unfilled <= gpl,
                    1 <= gs as int <= 16,
                    gpl as int >= 0,
            ;
        }
        hexpadn = unfilled * (2 * gs + 1) + ctr_pad;
        asciipadn = padl + ctr_pad;
    }
    (hexpadn, asciipadn)
}

/// Appends one closed line to `out`: address head, hex column with
/// terminal padding, ASCII sidebar between its delimiters, and the newline
/// that separates it from a following line.
#[verifier::rlimit(100)]
fn emit_line_text(
    out: &mut String,
    line: &String,
    ascii: &String,
    s: &HexDumpSettings,
    ls: usize,
    used: usize,
    groups: usize,
    oob: usize,
    is_last: bool,
    Ghost(sc): Ghost<LineScan>,
)
    requires
        group_size_ok(*s),
        sc.hex == line@,
        sc.ascii == ascii@,
        sc.groups == groups as int,
        sc.oob == oob as int,
        sc.is_last == is_last,
        !sc.dropped,
        used as int == sc.groups * s.group_size as int,
        oob <= 16,
        ls as int + s.address_origin as int + 32 <= usize::MAX,
        3 * (s.group_size as int * s.groups_per_line as int) + 2 <= usize::MAX,
    ensures
        final(out)@ == old(out)@ + line_text(*s, sc, ls as int) + (if sc.is_last {
            Seq::<char>::empty()
        } else {
            "\n"@
        }),
{
    let (hexpadn, asciipadn) = line_pads(s, used, groups, oob, is_last, Ghost(sc));
    if s.show_offset {
        push_hex_padded(out, ls + s.address_origin, s.address_width);
        out.append(": ");
    }
    out.append(line.as_str());
    push_repeated(out, ' ', hexpadn);
    if s.show_ascii {
        out.append(" |");
        out.append(ascii.as_str());
        push_repeated(out, ' ', asciipadn);
        out.append("|");
    }
    if !is_last {
        out.append("\n");
    }
    proof {
        assert(out@ =~= old(out)@ + line_text(*s, sc, ls as int) + (if sc.is_last {
            Seq::<char>::empty()
        } else {
            "\n"@
        }));
    }
}

/// Renders the line starting at `ls` into `out`.  Returns the next line's
/// start position, or `None` when the dump ends with this line.
#[verifier::loop_isolation(false)]
#[verifier::rlimit(100)]
fn render_line(
    out: &mut String,
    data: &[u8],
    s: &HexDumpSettings,
    offset: usize,
    end: usize,
    ls: usize,
) -> (next: Option<usize>)
    requires
        group_size_ok(*s),
        ls < end,
        end <= data@.len() + s.group_size,
        data@.len() + 32 <= usize::MAX,
        s.address_origin + data@.len() + 32 <= usize::MAX,
        3 * (s.group_size as int * s.groups_per_line as int) + 2 <= usize::MAX,
    ensures
        final(out)@ == old(out)@ + line_contrib(data@, *s, offset as int, end as int, ls as int),
        (next is Some) == line_continues(data@, *s, offset as int, end as int, ls as int),
        next matches Some(n) ==> (n as int == ls + s.group_size as int * s.groups_per_line as int
            && n <= end && n > ls),
{
    let ghost off_i = offset as int;
    let ghost end_i = end as int;
    let ghost ls_i = ls as int;
    let gs = s.group_size;
    let gpl = s.groups_per_line;
    let mut line = String::new();
    let mut ascii = String::new();
    let mut j: usize = 0;
    let mut gstart: usize = ls;
    proof {
        let rest = scan_groups(data@, *s, off_i, end_i, ls_i, 0);
        if !rest.dropped {
            assert(Seq::<char>::empty() + rest.hex =~= rest.hex);
            assert(Seq::<char>::empty() + rest.ascii =~= rest.ascii);
        }
    }
    loop
        invariant
            ls <= gstart < end,
            j <= gstart - ls,
            gstart as int - ls_i == j as int * gs as int,
            out@ == old(out)@,
            scan_invariant(data@, *s, off_i, end_i, ls_i, gstart as int, j as int, line@, ascii@),
        decreases end - gstart,
    {
        let gend = gstart + gs;
        if gend > end {
            proof {
                assert(scan_groups(data@, *s, off_i, end_i, gstart as int, j as int)
                    == dropped_line());
                assert(out@ =~= old(out)@ + line_contrib(data@, *s, off_i, end_i, ls_i));
            }
            return None;
        }
        let ghost line_pre = line@;
        let ghost ascii_pre = ascii@;
        if j > 0 {
            push_char(&mut line, ' ');
        }
        push_group_piece(&mut line, data, s, offset, gstart);
        if s.show_ascii {
            push_ascii_run(&mut ascii, data, offset, gstart, gend);
        }
        let ctr_here = j + 1 == gpl / 2 && s.show_centerline;
        if ctr_here {
            push_char(&mut line, ' ');
            if s.show_ascii {
                push_char(&mut ascii, ' ');
            }
        }
        let len = data.len();
        let oob = if gend > len {
            gend - len
        } else {
            0
        };
        let is_last = gend == end;
        proof {
            let sep: Seq<char> = if j >= 1 {
                seq![' ']
            } else {
                Seq::empty()
            };
            let ctr: Seq<char> = if j as int + 1 == gpl as int / 2 && s.show_centerline {
                seq![' ']
            } else {
                Seq::empty()
            };
            assert(line@ =~= line_pre + (sep + group_piece(data@, *s, off_i, gstart as int) + ctr));
            if s.show_ascii {
                assert(ascii@ =~= ascii_pre + (ascii_run(data@, off_i, gstart as int, gend as int)
                    + ctr));
            } else {
                assert(ascii@ =~= ascii_pre + Seq::<char>::empty());
            }
        }
        if j + 1 == gpl || is_last || oob > 0 {
            let ghost sc = line_scan(data@, *s, off_i, end_i, ls_i);
            proof {
                assert(sc == (LineScan {
                    hex: line@,
                    ascii: ascii@,
                    groups: j as int + 1,
                    is_last,
                    oob: oob as int,
                    dropped: false,
                }));
            }
            let used = gend - ls;
            proof {
                assert((j as int + 1) * gs as int == j as int * gs as int + gs as int) by (nonlinear_arith);
                assert(used as int == sc.groups * gs as int);
            }
            emit_line_text(out, &line, &ascii, s, ls, used, j + 1, oob, is_last, Ghost(sc));
            proof {
                assert(out@ =~= old(out)@ + line_contrib(data@, *s, off_i, end_i, ls_i));
            }
            if is_last || oob > 0 {
                return None;
            } else {
                proof {
                    assert((j as int + 1) * gs as int == j as int * gs as int + gs as int) by (nonlinear_arith);
                    assert(gend as int == ls_i + (j as int + 1) * gs as int);
                    assert((j as int + 1) * gs as int == gs as int * gpl as int) by (nonlinear_arith)
                        requires
                            j as int + 1 == gpl as int,
                    ;
                    assert(gend as int == ls_i + gs as int * gpl as int);
                }
                return Some(gend);
            }
        } else {
            proof {
                let rest = scan_groups(data@, *s, off_i, end_i, gstart as int, j as int);
                let rest2 = scan_groups(data@, *s, off_i, end_i, gend as int, j as int + 1);
                if !rest2.dropped {
                    assert(line_pre + rest.hex =~= line@ + rest2.hex);
                    assert(ascii_pre + rest.ascii =~= ascii@ + rest2.ascii);
                }
                assert((j as int + 1) * gs as int == j as int * gs as int + gs as int) by (nonlinear_arith);
            }
            j = j + 1;
            gstart = gend;
        }
    }
}

/// Generate a hex dump of the given data with the specified settings.
///
/// `data`: the byte slice to be dumped.
/// `settings`: the settings to customize the output.
/// `offset`: the starting offset for the dump.
/// `start_line`: the line number to start the dump from (0-based).
/// `line_count`: the number of lines to include in the dump (0 dumps all
/// lines from `start_line` to the end of the data).
///
/// Fails with `InvalidGroupSize` exactly when the group size lies outside
/// 1 through 16, and with `UnalignedOffset` exactly when strict mode is on
/// and the offset is not a multiple of the group size; any other request
/// succeeds, and the returned text is precisely `dump_view` applied to the
/// request.
#[verifier::loop_isolation(false)]
#[verifier::rlimit(100)]
pub fn hex_dump(
    data: &[u8],
    settings: &HexDumpSettings,
    offset: usize,
    start_line: usize,
    line_count: usize,
) -> (r: Result<String, HexOutError>)
    requires
        render_admissible(*settings, offset as int) ==> arith_ok(
            data@.len() as int,
            *settings,
            offset as int,
            start_line as int,
            line_count as int,
        ),
    ensures
        !group_size_ok(*settings) ==> r == Err::<String, HexOutError>(
            HexOutError::InvalidGroupSize,
        ),
        group_size_ok(*settings) && settings.strict && offset as int % settings.group_size as int
            != 0 ==> r == Err::<String, HexOutError>(
            HexOutError::UnalignedOffset { offset: offset, group_size: settings.group_size },
        ),
        render_admissible(*settings, offset as int) ==> (r matches Ok(text) && text@ == dump_view(
            data@,
            *settings,
            offset as int,
            start_line as int,
            line_count as int,
        )),
{
    if settings.group_size == 0 || settings.group_size > 16 {
        return Err(HexOutError::InvalidGroupSize);
    }
    if settings.strict && offset % settings.group_size != 0 {
        return Err(HexOutError::UnalignedOffset { offset, group_size: settings.group_size });
    }
    let ghost off_i = offset as int;
    let ghost sl_i = start_line as int;
    let ghost lc_i = line_count as int;
    let gs = settings.group_size;
    let bpl = gs * settings.groups_per_line;
    let len = data.len();
    let e0 = if line_count == 0 {
        len
    } else {
        proof {
            assert((start_line as int + line_count as int) * bpl as int <= usize::MAX - offset);
        }
        let cap = offset + (start_line + line_count) * bpl;
        if cap < len {
            cap
        } else {
            len
        }
    };
    let end = e0 + ((gs - e0 % gs) % gs);
    proof {
        assert(start_line as int * bpl as int <= (start_line as int + line_count as int)
            * bpl as int) by (nonlinear_arith)
            requires
                line_count as int >= 0,
                bpl as int >= 0,
        ;
    }
    let s0 = offset + start_line * bpl;
    let start = if settings.align_address && bpl > 0 {
        proof {
            assert(0 <= s0 as int % bpl as int <= s0 as int) by (nonlinear_arith)
                requires
                    bpl as int >= 1,
                    s0 as int >= 0,
            ;
        }
        s0 - s0 % bpl
    } else {
        s0
    };
    proof {
        assert(end as int == scan_end(len as int, *settings, off_i, sl_i, lc_i));
        assert(start as int == scan_start(*settings, off_i, sl_i));
        assert(end <= data@.len() + gs);
    }
    let mut out = String::new();
    let mut ls = start;
    let mut done = false;
    while !done && ls < end
        invariant
            done ==> out@ == render_lines(data@, *settings, off_i, end as int, start as int),
            !done ==> out@ + render_lines(data@, *settings, off_i, end as int, ls as int)
                == render_lines(data@, *settings, off_i, end as int, start as int),
        decreases end - ls, (if done {
            0int
        } else {
            1int
        }),
    {
        let ghost out_pre = out@;
        match render_line(&mut out, data, settings, offset, end, ls) {
            Some(n) => {
                proof {
                    assert(render_lines(data@, *settings, off_i, end as int, ls as int)
                        == line_contrib(data@, *settings, off_i, end as int, ls as int)
                        + render_lines(data@, *settings, off_i, end as int, n as int));
                    assert(out_pre + (line_contrib(data@, *settings, off_i, end as int, ls as int)
                        + render_lines(data@, *settings, off_i, end as int, n as int)) =~= out@
                        + render_lines(data@, *settings, off_i, end as int, n as int));
                }
                ls = n;
            },
            None => {
                proof {
                    assert(render_lines(data@, *settings, off_i, end as int, ls as int)
                        == line_contrib(data@, *settings, off_i, end as int, ls as int));
                    assert(out_pre + line_contrib(data@, *settings, off_i, end as int, ls as int)
                        =~= out@);
                }
                done = true;
            },
        }
    }
    proof {
        if !done {
            assert(render_lines(data@, *settings, off_i, end as int, ls as int)
                =~= Seq::<char>::empty());
            assert(out@ + Seq::<char>::empty() =~= out@);
        }
        assert(out@ == dump_view(data@, *settings, off_i, sl_i, lc_i));
    }
    Ok(out)
}

} // verus!
