//! The renderer's configuration record and its error type.

use vstd::prelude::*;
use crate::chars::{dec_digits, push_dec_digits};
use vstd::string::StringExecFns;

verus! {

/// Settings to customize the hex dump output.
#[derive(Debug, Clone)]
pub struct HexDumpSettings {
    /// Width of the address field in characters.
    pub address_width: usize,
    /// Whether to snap the first displayed address down to a multiple of the
    /// line's byte span.
    pub align_address: bool,
    /// Whether to pack byte groups in big-endian order.
    pub big_endian: bool,
    /// Number of bytes in each group (any count from 1 through 16).
    pub group_size: usize,
    /// Number of groups to display per line.
    pub groups_per_line: usize,
    /// Whether to show the ASCII sidebar alongside the hex output.
    pub show_ascii: bool,
    /// Whether to insert an extra gap at the midpoint of each line.
    pub show_centerline: bool,
    /// Whether to prefix each line with its address.
    pub show_offset: bool,
    /// Whether to reject offsets that do not align with the group size.
    pub strict: bool,
    /// Whether to use uppercase letters for hex digits.
    pub uppercase: bool,
    /// Numeric bias added to every printed address.
    pub address_origin: usize,
    /// Optional prefix put before each run of placeholder characters,
    /// useful for ANSI color codes.
    pub hex_out_error_prefix: Option<String>,
    /// Optional postfix put after each run of placeholder characters.
    pub hex_out_error_postfix: Option<String>,
}

/// The settings produced by `HexDumpSettings::default`.
pub open spec fn default_settings() -> HexDumpSettings {
    HexDumpSettings {
        address_width: 8,
        align_address: true,
        big_endian: false,
        group_size: 1,
        groups_per_line: 16,
        show_ascii: true,
        show_centerline: true,
        show_offset: true,
        strict: false,
        uppercase: false,
        address_origin: 0,
        hex_out_error_prefix: None,
        hex_out_error_postfix: None,
    }
}

impl Default for HexDumpSettings {
    /// One-byte groups, sixteen per line, with address column, ASCII
    /// sidebar and centerline, in lowercase little-endian form.
    fn default() -> (s: Self)
        ensures
            s == default_settings(),
    {
        HexDumpSettings {
            address_width: 8,
            align_address: true,
            big_endian: false,
            group_size: 1,
            groups_per_line: 16,
            show_ascii: true,
            show_centerline: true,
            show_offset: true,
            strict: false,
            uppercase: false,
            address_origin: 0,
            hex_out_error_prefix: None,
            hex_out_error_postfix: None,
        }
    }
}

/// Whether the configured group size lies in the accepted range.
pub open spec fn group_size_ok(s: HexDumpSettings) -> bool {
    1 <= s.group_size <= 16
}

/// The failures a render call can report.
#[derive(Debug)]
pub enum HexOutError {
    /// The specified group size is invalid (must be 1-16).
    InvalidGroupSize,
    /// The specified offset does not align with the group size in strict mode.
    UnalignedOffset { offset: usize, group_size: usize },
}

/// The one-line human-readable message for an error value.
pub open spec fn error_message(e: HexOutError) -> Seq<char> {
    match e {
        HexOutError::InvalidGroupSize => "Invalid group size (must be 1-16)"@,
        HexOutError::UnalignedOffset { offset, group_size } => "Offset "@ + dec_digits(
            offset as int,
        ) + " does not align with group size "@ + dec_digits(group_size as int)
            + " in strict mode (offset % group_size = "@ + dec_digits(
            offset as int % group_size as int,
        ) + ")"@,
    }
}

/// The debug-style rendering for an error value.
pub open spec fn error_debug_text(e: HexOutError) -> Seq<char> {
    match e {
        HexOutError::InvalidGroupSize => "HexOutError::InvalidGroupSize"@,
        HexOutError::UnalignedOffset { offset, group_size } => "HexOutError::UnalignedOffset { offset: "@
            + dec_digits(offset as int) + ", group_size: "@ + dec_digits(group_size as int)
            + " }"@,
    }
}

impl HexOutError {
    /// The one-line human-readable message, with the offending values.
    pub fn message(&self) -> (r: String)
        requires
            self matches HexOutError::UnalignedOffset { group_size, .. } ==> group_size >= 1,
        ensures
            r@ == error_message(*self),
    {
        let mut r = String::new();
        match self {
            HexOutError::InvalidGroupSize => {
                r.append("Invalid group size (must be 1-16)");
            },
            HexOutError::UnalignedOffset { offset, group_size } => {
                r.append("Offset ");
                push_dec_digits(&mut r, *offset);
                r.append(" does not align with group size ");
                push_dec_digits(&mut r, *group_size);
                r.append(" in strict mode (offset % group_size = ");
                push_dec_digits(&mut r, *offset % *group_size);
                r.append(")");
                proof {
                    assert(r@ =~= error_message(*self));
                }
            },
        }
        r
    }

    /// The debug-style rendering, naming the variant and its fields.
    pub fn debug_text(&self) -> (r: String)
        ensures
            r@ == error_debug_text(*self),
    {
        let mut r = String::new();
        match self {
            HexOutError::InvalidGroupSize => {
                r.append("HexOutError::InvalidGroupSize");
            },
            HexOutError::UnalignedOffset { offset, group_size } => {
                r.append("HexOutError::UnalignedOffset { offset: ");
                push_dec_digits(&mut r, *offset);
                r.append(", group_size: ");
                push_dec_digits(&mut r, *group_size);
                r.append(" }");
                proof {
                    assert(r@ =~= error_debug_text(*self));
                }
            },
        }
        r
    }
}

} // verus!
