//! Human-readable labels for byte counts.

use vstd::prelude::*;
use vstd::string::*;
use crate::consts::{BLUE, GREEN, RED, YELLOW};
use crate::style::{tint, tinted};
use crate::text::{
    blanks, decimal, is_blank, push_aligned_decimal, right_aligned, trimmed, trimmed_start,
};

verus! {

/// Bytes in a kilobyte, a megabyte and a gigabyte (powers of ten).
pub const KILO: u64 = 1_000;

pub const MEGA: u64 = 1_000_000;

pub const GIGA: u64 = 1_000_000_000;

/// The label shown for a size that is not known.
pub const UNKNOWN: &'static str = "N/A --";

/// The width to which `to_memory_string` aligns its number.
pub const LABEL_WIDTH: usize = 3;

/// The label of a byte count: the count in the largest unit (GB, MB, KB)
/// that it reaches, rounded down, or the raw count in bytes below one
/// kilobyte; the number is right-aligned in `width` characters. An unknown
/// size has a label of its own. Scaled labels and the unknown label are
/// coloured when `color` is set; plain byte counts never are.
pub open spec fn label_of(bytes: Option<nat>, width: nat, color: bool) -> Seq<char> {
    match bytes {
        None => tinted(YELLOW@, UNKNOWN@, color),
        Some(n) => if n >= GIGA {
            tinted(RED@, right_aligned(decimal(n / (GIGA as nat)), width) + " GB"@, color)
        } else if n >= MEGA {
            tinted(BLUE@, right_aligned(decimal(n / (MEGA as nat)), width) + " MB"@, color)
        } else if n >= KILO {
            tinted(GREEN@, right_aligned(decimal(n / (KILO as nat)), width) + " KB"@, color)
        } else {
            right_aligned(decimal(n), width) + "  B"@
        },
    }
}

/// The byte count of an optional size, as a natural number.
pub open spec fn as_nat(bytes: Option<u64>) -> Option<nat> {
    match bytes {
        Some(n) => Some(n as nat),
        None => None,
    }
}

/// The width at which the total of a listing shows its number once the
/// white space at the ends of its label is left out: a coloured label of a
/// scaled size keeps its padding, any other label loses it.
pub open spec fn trimmed_width(bytes: Option<nat>, color: bool) -> nat {
    match bytes {
        Some(n) => if color && n >= KILO {
            LABEL_WIDTH as nat
        } else {
            0
        },
        None => 0,
    }
}

/// A label without the white space at its ends is the label at the width
/// that `trimmed_width` gives: the escape sequences of a coloured label
/// shield its padding, and a bare label starts with its padding.
pub proof fn lemma_trimmed_label(bytes: Option<nat>, color: bool)
    ensures
        trimmed(label_of(bytes, LABEL_WIDTH as nat, color)) == label_of(
            bytes,
            trimmed_width(bytes, color),
            color,
        ),
{
    reveal_strlit("\x1B[0m");
    reveal_strlit("\x1B[0;31m");
    reveal_strlit("\x1B[0;32m");
    reveal_strlit("\x1B[0;33m");
    reveal_strlit("\x1B[0;34m");
    reveal_strlit("N/A --");
    reveal_strlit(" GB");
    reveal_strlit(" MB");
    reveal_strlit(" KB");
    reveal_strlit("  B");
    match bytes {
        None => {
        },
        Some(n) => {
            if n >= KILO && color {
            } else if n >= GIGA {
                lemma_trimmed_number(n / (GIGA as nat), " GB"@);
            } else if n >= MEGA {
                lemma_trimmed_number(n / (MEGA as nat), " MB"@);
            } else if n >= KILO {
                lemma_trimmed_number(n / (KILO as nat), " KB"@);
            } else {
                lemma_trimmed_number(n, "  B"@);
            }
        },
    }
}

/// A numeral never starts with white space.
proof fn lemma_decimal_is_solid(n: nat)
    ensures
        decimal(n).len() > 0,
        !is_blank(decimal(n)[0]),
    decreases n,
{
    if n >= 10 {
        lemma_decimal_is_solid(n / 10);
    }
}

/// Blanks before a text are white space at its start.
proof fn lemma_trimmed_start_of_blanks(k: nat, t: Seq<char>)
    ensures
        trimmed_start(blanks(k) + t) == trimmed_start(t),
    decreases k,
{
    if k == 0 {
    } else {
        assert((blanks(k) + t).drop_first() =~= blanks((k - 1) as nat) + t);
        lemma_trimmed_start_of_blanks((k - 1) as nat, t);
    }
}

/// An aligned numeral before a unit loses its padding, and nothing else.
proof fn lemma_trimmed_number(n: nat, unit: Seq<char>)
    requires
        unit.len() > 0,
        !is_blank(unit.last()),
    ensures
        trimmed(right_aligned(decimal(n), LABEL_WIDTH as nat) + unit) == right_aligned(
            decimal(n),
            0,
        ) + unit,
{
    lemma_decimal_is_solid(n);
    let body = decimal(n) + unit;
    if decimal(n).len() < LABEL_WIDTH {
        let k = (LABEL_WIDTH - decimal(n).len()) as nat;
        assert(right_aligned(decimal(n), LABEL_WIDTH as nat) + unit =~= blanks(k) + body);
        lemma_trimmed_start_of_blanks(k, body);
    }
}

fn scaled(shade: &str, n: u128, unit: &str, width: usize, color: bool) -> (label: String)
    ensures
        label@ == tinted(shade@, right_aligned(decimal(n as nat), width as nat) + unit@, color),
{
    let mut body = String::new();
    push_aligned_decimal(&mut body, n, width);
    body.append(unit);
    tint(shade, body.as_str(), color)
}

/// Renders the label of a byte count that may be as large as a sum of many
/// sizes.
pub fn size_label(bytes: Option<u128>, width: usize, color: bool) -> (label: String)
    ensures
        label@ == label_of(
            match bytes {
                Some(n) => Some(n as nat),
                None => None,
            },
            width as nat,
            color,
        ),
{
    match bytes {
        None => tint(YELLOW, UNKNOWN, color),
        Some(n) => {
            if n >= GIGA as u128 {
                scaled(RED, n / (GIGA as u128), " GB", width, color)
            } else if n >= MEGA as u128 {
                scaled(BLUE, n / (MEGA as u128), " MB", width, color)
            } else if n >= KILO as u128 {
                scaled(GREEN, n / (KILO as u128), " KB", width, color)
            } else {
                let mut label = String::new();
                push_aligned_decimal(&mut label, n, width);
                label.append("  B");
                label
            }
        },
    }
}

/// The coloured label of an optional byte count, its number right-aligned
/// in three characters.
pub fn to_memory_string(bytes: Option<u64>) -> (label: String)
    ensures
        label@ == label_of(as_nat(bytes), LABEL_WIDTH as nat, true),
{
    match bytes {
        Some(n) => size_label(Some(n as u128), LABEL_WIDTH, true),
        None => size_label(None, LABEL_WIDTH, true),
    }
}

} // verus!
