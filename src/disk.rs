//! Disk snapshots of the system volume.
//!
//! Three sources feed them: the portable library's list of volumes, the
//! filesystem-usage tool's table (1K-blocks), and the capacity helper's
//! three `|`-separated byte counts, which separate out purgeable space.
use vstd::prelude::*;
use crate::text::{
    chars_of, decimal_ok, decimal_value, field_spans, fields_of, line_spans, lines_of,
    parse_decimal, piece_spans, pieces_of, trim_of, trim_span,
};

verus! {

/// Free and total space of a volume, in bytes.
#[derive(Clone, Copy, Debug, PartialEq, Eq, Structural)]
pub struct DiskSpace {
    pub free_bytes: u128,
    pub total_bytes: u128,
}

/// Capacity of a volume with reclaimable space told apart, in bytes.
#[derive(Clone, Copy, Debug, PartialEq, Eq, Structural)]
pub struct DiskSpaceDetailed {
    pub total_bytes: u64,
    /// Available without reclaiming purgeable data.
    pub available_bytes: u64,
    /// Available once purgeable data is reclaimed.
    pub available_with_purgeable_bytes: u64,
    pub purgeable_bytes: u64,
    pub used_bytes: u64,
}

/// A mounted volume as the portable library lists it.
pub struct Volume {
    pub mount_point: String,
    pub total_bytes: u64,
    pub available_bytes: u64,
}

#[derive(Clone, Copy, Debug, PartialEq, Eq, Structural)]
pub enum DiskError {
    /// No volume is mounted.
    NoDisk,
    /// The usage table has no data line.
    NoReportLine,
    /// The data line has no total column.
    MissingTotal,
    /// The data line has no available column.
    MissingAvailable,
    /// The helper's output is not three `|`-separated fields.
    WrongFieldCount,
    BadTotal,
    BadAvailable,
    BadAvailableWithPurgeable,
}

pub open spec fn sat_sub(a: u64, b: u64) -> u64 {
    if a >= b {
        (a - b) as u64
    } else {
        0
    }
}

/// The detailed figures from total, available and available-with-purgeable
/// capacity: purgeable is the difference of the two available figures and
/// used is what the larger leaves of the total, neither below zero.
pub open spec fn detailed_of(total: u64, available: u64, with_purgeable: u64) -> DiskSpaceDetailed {
    DiskSpaceDetailed {
        total_bytes: total,
        available_bytes: available,
        available_with_purgeable_bytes: with_purgeable,
        purgeable_bytes: sat_sub(with_purgeable, available),
        used_bytes: sat_sub(total, with_purgeable),
    }
}

pub fn detailed_from_capacities(total: u64, available: u64, with_purgeable: u64) -> (r:
    DiskSpaceDetailed)
    ensures
        r == detailed_of(total, available, with_purgeable),
{
    let purgeable = if with_purgeable >= available {
        with_purgeable - available
    } else {
        0
    };
    let used = if total >= with_purgeable {
        total - with_purgeable
    } else {
        0
    };
    DiskSpaceDetailed {
        total_bytes: total,
        available_bytes: available,
        available_with_purgeable_bytes: with_purgeable,
        purgeable_bytes: purgeable,
        used_bytes: used,
    }
}

/// Of every detailed snapshot: purgeable space is
/// max(0, available-with-purgeable - available) and used space is
/// max(0, total - available-with-purgeable).
pub proof fn lemma_detailed_derivation(total: u64, available: u64, with_purgeable: u64)
    ensures
        ({
            let d = detailed_of(total, available, with_purgeable);
            &&& d.purgeable_bytes as int == if with_purgeable >= available {
                with_purgeable - available
            } else {
                0
            }
            &&& d.used_bytes as int == if total >= with_purgeable {
                total - with_purgeable
            } else {
                0
            }
            &&& d.used_bytes <= d.total_bytes
        }),
{
}

/// The conventional root of the system volume: `/`, or the primary drive.
pub open spec fn is_root_mount(m: Seq<char>) -> bool {
    m == seq!['/'] || m == seq!['C', ':', '\\']
}

pub fn root_mount(m: &str) -> (r: bool)
    ensures
        r == is_root_mount(m@),
{
    let cs = chars_of(m);
    let slash = cs.len() == 1 && cs[0] == '/';
    let drive = cs.len() == 3 && cs[0] == 'C' && cs[1] == ':' && cs[2] == '\\';
    proof {
        if slash {
            assert(cs@ =~= seq!['/']);
        }
        if drive {
            assert(cs@ =~= seq!['C', ':', '\\']);
        }
        if m@ == seq!['/'] {
            assert(cs@[0] == '/');
        }
        if m@ == seq!['C', ':', '\\'] {
            assert(cs@[0] == 'C' && cs@[1] == ':' && cs@[2] == '\\');
        }
    }
    slash || drive
}

/// The position of the first root volume in `v[k..]`, or `v.len()`.
pub open spec fn first_root_from(v: Seq<Volume>, k: int) -> int
    decreases v.len() - k,
{
    if k >= v.len() || k < 0 {
        v.len() as int
    } else if is_root_mount(v[k].mount_point@) {
        k
    } else {
        first_root_from(v, k + 1)
    }
}

/// The volume that stands for the system: the first root volume, else the
/// first volume, else none.
pub open spec fn system_volume(v: Seq<Volume>) -> Option<int> {
    if first_root_from(v, 0) < v.len() {
        Some(first_root_from(v, 0))
    } else if v.len() > 0 {
        Some(0)
    } else {
        None
    }
}

pub fn select_volume(vols: &Vec<Volume>) -> (r: Option<usize>)
    ensures
        match r {
            Some(x) => system_volume(vols@) == Some(x as int) && x < vols@.len(),
            None => system_volume(vols@) is None,
        },
{
    let mut k: usize = 0;
    while k < vols.len()
        invariant
            k <= vols@.len(),
            first_root_from(vols@, k as int) == first_root_from(vols@, 0),
        decreases vols@.len() - k,
    {
        if root_mount(vols[k].mount_point.as_str()) {
            return Some(k);
        }
        k = k + 1;
    }
    if vols.len() > 0 {
        Some(0)
    } else {
        None
    }
}

/// Free and total space of the system volume.
pub fn disk_space_from_volumes(vols: &Vec<Volume>) -> (r: Result<DiskSpace, DiskError>)
    ensures
        match system_volume(vols@) {
            Some(i) => r == Ok::<DiskSpace, DiskError>(
                DiskSpace {
                    free_bytes: vols@[i].available_bytes as u128,
                    total_bytes: vols@[i].total_bytes as u128,
                },
            ),
            None => r == Err::<DiskSpace, DiskError>(DiskError::NoDisk),
        },
{
    match select_volume(vols) {
        Some(i) => Ok(
            DiskSpace {
                free_bytes: vols[i].available_bytes as u128,
                total_bytes: vols[i].total_bytes as u128,
            },
        ),
        None => Err(DiskError::NoDisk),
    }
}

/// Detailed capacity of the system volume where there is no purgeable
/// space: both available figures are the library's one.
pub fn detailed_from_volumes(vols: &Vec<Volume>) -> (r: Result<DiskSpaceDetailed, DiskError>)
    ensures
        match system_volume(vols@) {
            Some(i) => r == Ok::<DiskSpaceDetailed, DiskError>(
                detailed_of(
                    vols@[i].total_bytes,
                    vols@[i].available_bytes,
                    vols@[i].available_bytes,
                ),
            ),
            None => r == Err::<DiskSpaceDetailed, DiskError>(DiskError::NoDisk),
        },
        r matches Ok(d) ==> d.purgeable_bytes == 0,
{
    match select_volume(vols) {
        Some(i) => {
            let avail = vols[i].available_bytes;
            Ok(detailed_from_capacities(vols[i].total_bytes, avail, avail))
        },
        None => Err(DiskError::NoDisk),
    }
}

/// What the filesystem-usage table says: its second line, whitespace
/// separated, holds the total 1K-blocks in column 1 and the available ones
/// in column 3.
pub open spec fn df_outcome(s: Seq<char>) -> Result<DiskSpace, DiskError> {
    let ls = lines_of(s);
    if ls.len() < 2 {
        Err(DiskError::NoReportLine)
    } else {
        let fs = fields_of(s, ls[1].0, ls[1].1);
        if fs.len() < 2 {
            Err(DiskError::MissingTotal)
        } else if !decimal_ok(s, fs[1].0, fs[1].1, u64::MAX as int) {
            Err(DiskError::BadTotal)
        } else if fs.len() < 4 {
            Err(DiskError::MissingAvailable)
        } else if !decimal_ok(s, fs[3].0, fs[3].1, u64::MAX as int) {
            Err(DiskError::BadAvailable)
        } else {
            Ok(
                DiskSpace {
                    free_bytes: (decimal_value(s, fs[3].0, fs[3].1) * 1024) as u128,
                    total_bytes: (decimal_value(s, fs[1].0, fs[1].1) * 1024) as u128,
                },
            )
        }
    }
}

/// Reads free and total space of the root volume from the
/// filesystem-usage tool's table.
pub fn parse_df_report(report: &str) -> (r: Result<DiskSpace, DiskError>)
    ensures
        r == df_outcome(report@),
{
    let cs = chars_of(report);
    let lines = line_spans(&cs);
    if lines.len() < 2 {
        return Err(DiskError::NoReportLine);
    }
    let (lo, hi) = lines[1];
    let fields = field_spans(&cs, lo, hi);
    if fields.len() < 2 {
        return Err(DiskError::MissingTotal);
    }
    let total = match parse_decimal(&cs, fields[1].0, fields[1].1) {
        Some(v) => v,
        None => {
            return Err(DiskError::BadTotal);
        },
    };
    if fields.len() < 4 {
        return Err(DiskError::MissingAvailable);
    }
    let available = match parse_decimal(&cs, fields[3].0, fields[3].1) {
        Some(v) => v,
        None => {
            return Err(DiskError::BadAvailable);
        },
    };
    Ok(
        DiskSpace {
            free_bytes: available as u128 * 1024,
            total_bytes: total as u128 * 1024,
        },
    )
}

/// What the capacity helper's output says: trimmed, it is exactly three
/// `|`-separated decimal byte counts, total, available and available with
/// purgeable space.
pub open spec fn capacity_outcome(s: Seq<char>) -> Result<DiskSpaceDetailed, DiskError> {
    let t = trim_of(s, 0, s.len() as int);
    let ps = pieces_of(s, t.0, t.1, '|');
    if ps.len() != 3 {
        Err(DiskError::WrongFieldCount)
    } else if !decimal_ok(s, ps[0].0, ps[0].1, u64::MAX as int) {
        Err(DiskError::BadTotal)
    } else if !decimal_ok(s, ps[1].0, ps[1].1, u64::MAX as int) {
        Err(DiskError::BadAvailable)
    } else if !decimal_ok(s, ps[2].0, ps[2].1, u64::MAX as int) {
        Err(DiskError::BadAvailableWithPurgeable)
    } else {
        Ok(
            detailed_of(
                decimal_value(s, ps[0].0, ps[0].1) as u64,
                decimal_value(s, ps[1].0, ps[1].1) as u64,
                decimal_value(s, ps[2].0, ps[2].1) as u64,
            ),
        )
    }
}

/// Reads the detailed capacity of the root volume from the capacity
/// helper's output.
pub fn parse_capacity_report(report: &str) -> (r: Result<DiskSpaceDetailed, DiskError>)
    ensures
        r == capacity_outcome(report@),
{
    let cs = chars_of(report);
    let (a, b) = trim_span(&cs, 0, cs.len());
    let pieces = piece_spans(&cs, a, b, '|');
    if pieces.len() != 3 {
        return Err(DiskError::WrongFieldCount);
    }
    let total = match parse_decimal(&cs, pieces[0].0, pieces[0].1) {
        Some(v) => v,
        None => {
            return Err(DiskError::BadTotal);
        },
    };
    let available = match parse_decimal(&cs, pieces[1].0, pieces[1].1) {
        Some(v) => v,
        None => {
            return Err(DiskError::BadAvailable);
        },
    };
    let with_purgeable = match parse_decimal(&cs, pieces[2].0, pieces[2].1) {
        Some(v) => v,
        None => {
            return Err(DiskError::BadAvailableWithPurgeable);
        },
    };
    Ok(detailed_from_capacities(total, available, with_purgeable))
}

} // verus!
