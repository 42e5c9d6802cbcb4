//! Disk-space assessment and byte formatting for folder validation.
//!
//! Reading the filesystem stays with the caller; here live the decisions
//! made from what it reads.

use vstd::prelude::*;

use crate::text::{dec_str, digit_char, u64_to_string};

verus! {

use vstd::string::StrSliceExecFns;
use vstd::string::StringExecFns;

/// Disk-space information for a target folder.
#[derive(Debug)]
pub struct DiskSpaceInfo {
    /// Available space in bytes.
    pub available_bytes: u64,
    /// Total space in bytes.
    pub total_bytes: u64,
    /// Whether the estimated download fits.
    pub has_enough_space: bool,
    /// Human-readable available space.
    pub available_formatted: String,
}

/// Result of validating a folder for a download.
#[derive(Debug)]
pub struct FolderValidationResult {
    /// Whether the folder is valid for the download.
    pub is_valid: bool,
    /// Whether the folder exists and is writable.
    pub is_accessible: bool,
    /// Disk-space details.
    pub disk_space: DiskSpaceInfo,
    /// Warning message, when space is low.
    pub warning: Option<String>,
}

/// A byte count scaled to a unit, in hundredths, rounded half up.
pub open spec fn scaled_centi(bytes: u64, unit: nat) -> int
    recommends
        unit >= 1,
{
    ((bytes * 200) / (unit as int) + 1) / 2
}

/// The rendered form of a scaled value: whole part, point, two fraction
/// digits.
pub open spec fn centi_render(v: int) -> Seq<char>
    recommends
        v >= 0,
{
    dec_str(v / 100).push('.').push(digit_char((v % 100) / 10)).push(digit_char(v % 10))
}

/// A byte count rendered with a binary unit: two fraction digits for
/// kilobytes and above, a plain count below.
pub open spec fn format_bytes_spec(bytes: u64) -> Seq<char> {
    if bytes >= 0x100_0000_0000 {
        centi_render(scaled_centi(bytes, 0x100_0000_0000)).add(" TB"@)
    } else if bytes >= 0x4000_0000 {
        centi_render(scaled_centi(bytes, 0x4000_0000)).add(" GB"@)
    } else if bytes >= 0x10_0000 {
        centi_render(scaled_centi(bytes, 0x10_0000)).add(" MB"@)
    } else if bytes >= 0x400 {
        centi_render(scaled_centi(bytes, 0x400)).add(" KB"@)
    } else {
        dec_str(bytes as int).add(" B"@)
    }
}

/// Render a scaled value and unit suffix.
fn render_scaled(bytes: u64, unit: u64, suffix: &str) -> (r: String)
    requires
        unit >= 1,
        bytes >= unit,
    ensures
        r@ == centi_render(scaled_centi(bytes, unit as nat)).add(suffix@),
{
    let v128: u128 = ((bytes as u128) * 200 / (unit as u128) + 1) / 2;
    proof {
        assert(v128 == scaled_centi(bytes, unit as nat));
        assert((bytes as int) * 200 / (unit as int) >= 200) by (nonlinear_arith)
            requires
                bytes >= unit && unit >= 1,
        ;
        assert((bytes as int) * 200 <= 0xffff_ffff_ffff_ffff * 200) by (nonlinear_arith)
            requires
                0 <= bytes <= 0xffff_ffff_ffff_ffffu64,
        ;
        assert((bytes as int) * 200 / (unit as int) <= (bytes as int) * 200) by (nonlinear_arith)
            requires
                unit >= 1 && (bytes as int) * 200 >= 0,
        ;
    }
    let v: u64 = (v128 / 100) as u64;
    let frac: u64 = (v128 % 100) as u64;
    let mut out = u64_to_string(v);
    crate::text::string_push(&mut out, '.');
    let d1: u64 = frac / 10;
    let d0: u64 = frac % 10;
    let c1: char = if d1 == 0 {
        '0'
    } else if d1 == 1 {
        '1'
    } else if d1 == 2 {
        '2'
    } else if d1 == 3 {
        '3'
    } else if d1 == 4 {
        '4'
    } else if d1 == 5 {
        '5'
    } else if d1 == 6 {
        '6'
    } else if d1 == 7 {
        '7'
    } else if d1 == 8 {
        '8'
    } else {
        '9'
    };
    let c0: char = if d0 == 0 {
        '0'
    } else if d0 == 1 {
        '1'
    } else if d0 == 2 {
        '2'
    } else if d0 == 3 {
        '3'
    } else if d0 == 4 {
        '4'
    } else if d0 == 5 {
        '5'
    } else if d0 == 6 {
        '6'
    } else if d0 == 7 {
        '7'
    } else if d0 == 8 {
        '8'
    } else {
        '9'
    };
    crate::text::string_push(&mut out, c1);
    crate::text::string_push(&mut out, c0);
    out.append(suffix);
    proof {
        assert(out@ =~= centi_render(scaled_centi(bytes, unit as nat)).add(suffix@));
    }
    out
}

/// Format a byte count as a human-readable size.
pub fn format_bytes(bytes: u64) -> (r: String)
    ensures
        r@ == format_bytes_spec(bytes),
{
    if bytes >= 0x100_0000_0000 {
        render_scaled(bytes, 0x100_0000_0000, " TB")
    } else if bytes >= 0x4000_0000 {
        render_scaled(bytes, 0x4000_0000, " GB")
    } else if bytes >= 0x10_0000 {
        render_scaled(bytes, 0x10_0000, " MB")
    } else if bytes >= 0x400 {
        render_scaled(bytes, 0x400, " KB")
    } else {
        let mut out = u64_to_string(bytes);
        out.append(" B");
        out
    }
}

/// Assess the disk space read for a folder against an estimated size.
pub fn assess_disk_space(available: u64, total: u64, estimated_size_bytes: Option<u64>) -> (r:
    DiskSpaceInfo)
    ensures
        r.available_bytes == available,
        r.total_bytes == total,
        r.has_enough_space == match estimated_size_bytes {
            Some(size) => available > size,
            None => true,
        },
        r.available_formatted@ == format_bytes_spec(available),
{
    let has_enough_space = match estimated_size_bytes {
        Some(size) => available > size,
        None => true,
    };
    DiskSpaceInfo {
        available_bytes: available,
        total_bytes: total,
        has_enough_space,
        available_formatted: format_bytes(available),
    }
}

/// Combine accessibility and disk space into a validation verdict, with a
/// low-space warning.
pub fn validate_folder(is_accessible: bool, disk_space: DiskSpaceInfo) -> (r:
    FolderValidationResult)
    ensures
        r.is_valid == (is_accessible && disk_space.has_enough_space),
        r.is_accessible == is_accessible,
        r.disk_space == disk_space,
        disk_space.has_enough_space ==> r.warning is None,
        !disk_space.has_enough_space ==> (r.warning matches Some(w) && w@
            == "Low disk space: only "@.add(disk_space.available_formatted@).add(" available"@)),
{
    let warning: Option<String> = if !disk_space.has_enough_space {
        let mut w = String::from_str("Low disk space: only ");
        w.append(disk_space.available_formatted.as_str());
        w.append(" available");
        Some(w)
    } else {
        None
    };
    FolderValidationResult {
        is_valid: is_accessible && disk_space.has_enough_space,
        is_accessible,
        disk_space,
        warning,
    }
}

} // verus!
