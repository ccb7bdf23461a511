//! General properties of the renderer, stated over the model that the
//! renderer's contracts use.

use vstd::prelude::*;
use vstd::arithmetic::div_mod::{
    lemma_add_mod_noop, lemma_fundamental_div_mod, lemma_mod_multiples_basic,
    lemma_mod_multiples_vanish,
};
use crate::model::{
    asciipad_len, centerline_pad, dump_view, hexpad_len, line_contrib, line_continues, line_text,
    render_admissible, render_lines, round_up_to, scan_end, scan_groups, scan_start, LineScan,
};
use crate::settings::{group_size_ok, HexDumpSettings};

verus! {

/// The rendered text is a function of the request alone: two renders of
/// the same `(data, settings, offset, start_line, line_count)` are
/// byte-identical.
pub proof fn lemma_render_deterministic(
    t1: Seq<char>,
    t2: Seq<char>,
    data: Seq<u8>,
    s: HexDumpSettings,
    off: int,
    sl: int,
    lc: int,
)
    requires
        t1 == dump_view(data, s, off, sl, lc),
        t2 == dump_view(data, s, off, sl, lc),
    ensures
        t1 == t2,
{
}

/// With a valid group size, an unaligned offset is rejected exactly in
/// strict mode: the same request with `strict` cleared passes validation.
pub proof fn lemma_strict_gate(s: HexDumpSettings, off: int)
    requires
        group_size_ok(s),
        off % (s.group_size as int) != 0,
    ensures
        s.strict ==> !render_admissible(s, off),
        !s.strict ==> render_admissible(s, off),
{
}

/// Rounding up stays within one step of `x` and lands on a multiple.
proof fn lemma_round_up_props(x: int, m: int)
    requires
        m >= 1,
        x >= 0,
    ensures
        x <= round_up_to(x, m) < x + m,
        round_up_to(x, m) % m == 0,
{
    assert(0 <= x % m < m) by (nonlinear_arith)
        requires
            m >= 1 && x >= 0,
    ;
    assert((m - x % m) % m == (if x % m == 0 {
        0int
    } else {
        m - x % m
    })) by (nonlinear_arith)
        requires
            m >= 1 && 0 <= x % m < m,
    ;
    assert((x + ((m - x % m) % m)) % m == 0) by (nonlinear_arith)
        requires
            m >= 1 && x >= 0,
    ;
}

/// Requesting a start line at or past the available data yields the empty
/// dump, whatever the offset and line count.
pub proof fn lemma_start_line_past_end(
    data: Seq<u8>,
    s: HexDumpSettings,
    off: int,
    sl: int,
    lc: int,
)
    requires
        group_size_ok(s),
        off >= 0,
        sl >= 0,
        lc >= 0,
        sl * (s.group_size as int * s.groups_per_line as int) >= data.len()
            + s.group_size as int,
    ensures
        dump_view(data, s, off, sl, lc) == Seq::<char>::empty(),
{
    let gs = s.group_size as int;
    let gpl = s.groups_per_line as int;
    let bpl = gs * gpl;
    let len = data.len() as int;
    let end = scan_end(len, s, off, sl, lc);
    let start = scan_start(s, off, sl);
    assert(bpl >= 1) by (nonlinear_arith)
        requires
            sl * bpl >= 1 && sl >= 0 && bpl >= 0,
    ;
    let e0 = if lc == 0 {
        len
    } else if off + (sl + lc) * bpl < len {
        off + (sl + lc) * bpl
    } else {
        len
    };
    assert((sl + lc) * bpl >= 0) by (nonlinear_arith)
        requires
            sl >= 0 && lc >= 0 && bpl >= 0,
    ;
    lemma_round_up_props(e0, gs);
    assert(end < len + gs);
    let s0 = off + sl * bpl;
    if s.align_address {
        lemma_mod_multiples_vanish(sl, off, bpl);
        assert((bpl * sl + off) % bpl == off % bpl);
        assert(sl * bpl == bpl * sl) by (nonlinear_arith);
        assert(s0 == bpl * sl + off);
        assert(s0 % bpl == off % bpl);
        assert(0 <= off % bpl <= off) by (nonlinear_arith)
            requires
                off >= 0 && bpl >= 1,
        ;
        assert(start == s0 - s0 % bpl);
        assert(start >= sl * bpl);
    } else {
        assert(start >= sl * bpl);
    }
    assert(start >= end);
}

/// Rounding up never passes a multiple of `m` lying at or above `x`.
proof fn lemma_round_up_le_multiple(x: int, m: int, y: int)
    requires
        m >= 1,
        x >= 0,
        y % m == 0,
        y >= x,
    ensures
        round_up_to(x, m) <= y,
{
    lemma_round_up_props(x, m);
    assert(round_up_to(x, m) <= y) by (nonlinear_arith)
        requires
            m >= 1 && y % m == 0 && y >= x && round_up_to(x, m) % m == 0 && x <= round_up_to(x, m)
                < x + m,
    ;
}

/// A line whose groups all lie inside the data and inside both scan ends
/// scans identically under either end, except for whether it is the line
/// that reaches the end.
proof fn lemma_scan_full_line(
    data: Seq<u8>,
    s: HexDumpSettings,
    off: int,
    end1: int,
    end2: int,
    gstart: int,
    j: int,
)
    requires
        group_size_ok(s),
        s.groups_per_line as int >= 1,
        0 <= j < s.groups_per_line as int,
        gstart >= 0,
        gstart + (s.groups_per_line as int - j) * s.group_size as int <= data.len(),
        gstart + (s.groups_per_line as int - j) * s.group_size as int <= end1,
        gstart + (s.groups_per_line as int - j) * s.group_size as int <= end2,
    ensures
        ({
            let gs = s.group_size as int;
            let gpl = s.groups_per_line as int;
            let lend = gstart + (gpl - j) * gs;
            let sc1 = scan_groups(data, s, off, end1, gstart, j);
            let sc2 = scan_groups(data, s, off, end2, gstart, j);
            &&& !sc1.dropped
            &&& !sc2.dropped
            &&& sc1.hex == sc2.hex
            &&& sc1.ascii == sc2.ascii
            &&& sc1.groups == gpl
            &&& sc2.groups == gpl
            &&& sc1.oob == 0
            &&& sc2.oob == 0
            &&& sc1.is_last == (lend == end1)
            &&& sc2.is_last == (lend == end2)
        }),
    decreases s.groups_per_line as int - j,
{
    let gs = s.group_size as int;
    let gpl = s.groups_per_line as int;
    let lend = gstart + (gpl - j) * gs;
    let gend = gstart + gs;
    assert((gpl - j) * gs >= 1 * gs && ((gpl - j >= 2) ==> (gpl - j) * gs >= 2 * gs))
        by (nonlinear_arith)
        requires
            gpl - j >= 1 && gs >= 1,
    ;
    if j + 1 == gpl {
        assert(lend == gend);
    } else {
        assert(gend + (gpl - (j + 1)) * gs == lend) by (nonlinear_arith)
            requires
                lend == gstart + (gpl - j) * gs && gend == gstart + gs,
        ;
        assert(gend < lend);
        lemma_scan_full_line(data, s, off, end1, end2, gend, j + 1);
    }
}

/// A full line's text does not depend on whether it happened to reach the
/// scan end: its padding is empty either way.
proof fn lemma_full_line_text(s: HexDumpSettings, sc1: LineScan, sc2: LineScan, addr: int)
    requires
        group_size_ok(s),
        s.groups_per_line as int >= 1,
        sc1.hex == sc2.hex,
        sc1.ascii == sc2.ascii,
        sc1.groups == s.groups_per_line as int,
        sc2.groups == s.groups_per_line as int,
        sc1.oob == 0,
        sc2.oob == 0,
    ensures
        line_text(s, sc1, addr) == line_text(s, sc2, addr),
{
    let gs = s.group_size as int;
    let gpl = s.groups_per_line as int;
    assert(gpl / 2 <= gpl) by (nonlinear_arith)
        requires
            gpl >= 0,
    ;
    assert(centerline_pad(s, sc1) == 0 && centerline_pad(s, sc2) == 0);
    assert(gpl * gs == gs * gpl) by (nonlinear_arith);
    assert(hexpad_len(s, sc1) == 0 && hexpad_len(s, sc2) == 0);
    assert(asciipad_len(s, sc1) == 0 && asciipad_len(s, sc2) == 0);
    assert(line_text(s, sc1, addr) =~= line_text(s, sc2, addr));
}

/// Monotonic windowing: a dump of all remaining lines equals the dump of
/// its first line followed — when more data lies past that line — by a
/// newline and the dump of all lines after it.  Holds whenever the offset
/// is aligned to the line span, so that every requested window ends on a
/// line boundary.
pub proof fn lemma_windowing(data: Seq<u8>, s: HexDumpSettings, off: int, sl: int)
    requires
        group_size_ok(s),
        s.groups_per_line as int >= 1,
        off >= 0,
        sl >= 0,
        off % (s.group_size as int * s.groups_per_line as int) == 0,
    ensures
        ({
            let bpl = s.group_size as int * s.groups_per_line as int;
            let end_full = scan_end(data.len() as int, s, off, sl, 0);
            dump_view(data, s, off, sl, 0) == dump_view(data, s, off, sl, 1) + (if off + (sl + 1)
                * bpl < end_full {
                "\n"@ + dump_view(data, s, off, sl + 1, 0)
            } else {
                Seq::<char>::empty()
            })
        }),
{
    let gs = s.group_size as int;
    let gpl = s.groups_per_line as int;
    let bpl = gs * gpl;
    let len = data.len() as int;
    assert(bpl >= 1) by (nonlinear_arith)
        requires
            gs >= 1 && gpl >= 1 && bpl == gs * gpl,
    ;
    let ls = off + sl * bpl;
    assert(sl * bpl >= 0) by (nonlinear_arith)
        requires
            sl >= 0 && bpl >= 0,
    ;
    assert((sl + 1) * bpl == sl * bpl + bpl) by (nonlinear_arith);
    // The start positions of the three renders, and their multiples of the
    // group size.
    lemma_mod_multiples_vanish(sl, off, bpl);
    assert(sl * bpl == bpl * sl) by (nonlinear_arith);
    assert(ls % bpl == off % bpl);
    lemma_mod_multiples_vanish(sl + 1, off, bpl);
    assert((sl + 1) * bpl == bpl * (sl + 1)) by (nonlinear_arith);
    assert((ls + bpl) % bpl == off % bpl);
    assert(scan_start(s, off, sl) == ls);
    assert(scan_start(s, off, sl + 1) == ls + bpl);
    lemma_fundamental_div_mod(ls, bpl);
    assert(ls == gs * (gpl * (ls / bpl))) by (nonlinear_arith)
        requires
            ls == (gs * gpl) * (ls / bpl),
    ;
    lemma_mod_multiples_basic(gpl * (ls / bpl), gs);
    assert(gs * (gpl * (ls / bpl)) == (gpl * (ls / bpl)) * gs) by (nonlinear_arith);
    assert(ls % gs == 0);
    assert(bpl == gpl * gs) by (nonlinear_arith)
        requires
            bpl == gs * gpl,
    ;
    lemma_mod_multiples_basic(gpl, gs);
    assert(bpl % gs == 0);
    lemma_add_mod_noop(ls, bpl, gs);
    assert((0int + 0int) % gs == 0) by (nonlinear_arith)
        requires
            gs >= 1,
    ;
    assert((ls + bpl) % gs == 0);
    let end_full = scan_end(len, s, off, sl, 0);
    assert(end_full == round_up_to(len, gs));
    assert(scan_end(len, s, off, sl + 1, 0) == end_full);
    lemma_round_up_props(len, gs);
    let e0w = if off + (sl + 1) * bpl < len {
        off + (sl + 1) * bpl
    } else {
        len
    };
    let end_w = scan_end(len, s, off, sl, 1);
    assert(end_w == round_up_to(e0w, gs));
    if ls >= end_full {
        // Nothing to render in any of the three views.
        lemma_round_up_le_multiple(e0w, gs, end_full);
        assert(dump_view(data, s, off, sl, 0) =~= Seq::<char>::empty());
        assert(dump_view(data, s, off, sl, 1) =~= Seq::<char>::empty());
        assert(dump_view(data, s, off, sl, 0) =~= dump_view(data, s, off, sl, 1) + Seq::<
            char,
        >::empty());
    } else if ls + bpl >= len {
        // The window cap lies at or past the data: the window sees the same
        // scan end as the full render, and no line follows.
        assert(e0w == len);
        assert(end_w == end_full);
        if ls + bpl < end_full {
            lemma_round_up_le_multiple(len, gs, ls + bpl);
            assert(false);
        }
        assert(dump_view(data, s, off, sl, 0) =~= dump_view(data, s, off, sl, 1) + Seq::<
            char,
        >::empty());
    } else {
        // The window ends exactly one line span in: the first line is full
        // under both ends, and the full render goes on below it.
        assert(e0w == ls + bpl);
        lemma_round_up_props(ls + bpl, gs);
        assert(end_w == ls + bpl) by (nonlinear_arith)
            requires
                end_w == round_up_to(ls + bpl, gs) && (ls + bpl) % gs == 0 && gs >= 1 && ls + bpl
                    >= 0,
        ;
        assert(ls + (gpl - 0) * gs == ls + bpl) by (nonlinear_arith)
            requires
                bpl == gs * gpl,
        ;
        lemma_scan_full_line(data, s, off, end_full, end_w, ls, 0);
        let sc1 = scan_groups(data, s, off, end_full, ls, 0);
        let sc2 = scan_groups(data, s, off, end_w, ls, 0);
        assert(end_full >= len);
        assert(!sc1.is_last);
        assert(sc2.is_last);
        lemma_full_line_text(s, sc1, sc2, ls);
        assert(!line_continues(data, s, off, end_w, ls));
        assert(render_lines(data, s, off, end_w, ls) == line_contrib(data, s, off, end_w, ls));
        assert(line_contrib(data, s, off, end_w, ls) =~= line_text(s, sc2, ls));
        assert(line_continues(data, s, off, end_full, ls));
        assert(render_lines(data, s, off, end_full, ls) == line_contrib(
            data,
            s,
            off,
            end_full,
            ls,
        ) + render_lines(data, s, off, end_full, ls + bpl));
        assert(line_contrib(data, s, off, end_full, ls) =~= line_text(s, sc1, ls) + "\n"@);
        assert(render_lines(data, s, off, end_full, ls) =~= render_lines(data, s, off, end_w, ls)
            + ("\n"@ + render_lines(data, s, off, end_full, ls + bpl)));
    }
}

} // verus!
