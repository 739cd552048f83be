//! Fixed-point sine and cosine on the two cyclic grids the feature
//! extractor needs: 52 week positions and 12 month positions.
//!
//! Each grid is defined by a quarter-wave table of rounded values in
//! millionths, extended by the usual symmetries; cosine is sine shifted by a
//! quarter period.

use vstd::prelude::*;

verus! {

/// Quarter-wave table for the 52-point grid: `sin(2*pi*j/52)` in millionths,
/// for `0 <= j <= 13`.
pub open spec fn sin52_quarter(j: int) -> int {
    if j == 0 {
        0
    } else if j == 1 {
        120537
    } else if j == 2 {
        239316
    } else if j == 3 {
        354605
    } else if j == 4 {
        464723
    } else if j == 5 {
        568065
    } else if j == 6 {
        663123
    } else if j == 7 {
        748511
    } else if j == 8 {
        822984
    } else if j == 9 {
        885456
    } else if j == 10 {
        935016
    } else if j == 11 {
        970942
    } else if j == 12 {
        992709
    } else {
        1000000
    }
}

/// `sin(2*pi*k/52)` in millionths for `0 <= k < 52`.
pub open spec fn sin52_spec(k: int) -> int {
    if k <= 13 {
        sin52_quarter(k)
    } else if k <= 26 {
        sin52_quarter(26 - k)
    } else if k <= 39 {
        -sin52_quarter(k - 26)
    } else {
        -sin52_quarter(52 - k)
    }
}

/// `cos(2*pi*k/52)` in millionths for `0 <= k < 52`.
pub open spec fn cos52_spec(k: int) -> int {
    sin52_spec((k + 13) % 52)
}

/// Quarter-wave table for the 12-point grid: `sin(2*pi*j/12)` in millionths,
/// for `0 <= j <= 3`.
pub open spec fn sin12_quarter(j: int) -> int {
    if j == 0 {
        0
    } else if j == 1 {
        500000
    } else if j == 2 {
        866025
    } else {
        1000000
    }
}

/// `sin(2*pi*k/12)` in millionths for `0 <= k < 12`.
pub open spec fn sin12_spec(k: int) -> int {
    if k <= 3 {
        sin12_quarter(k)
    } else if k <= 6 {
        sin12_quarter(6 - k)
    } else if k <= 9 {
        -sin12_quarter(k - 6)
    } else {
        -sin12_quarter(12 - k)
    }
}

/// `cos(2*pi*k/12)` in millionths for `0 <= k < 12`.
pub open spec fn cos12_spec(k: int) -> int {
    sin12_spec((k + 3) % 12)
}

fn sin52_quarter_exec(j: u64) -> (r: i64)
    requires
        j <= 13,
    ensures
        r as int == sin52_quarter(j as int),
{
    if j == 0 {
        0
    } else if j == 1 {
        120537
    } else if j == 2 {
        239316
    } else if j == 3 {
        354605
    } else if j == 4 {
        464723
    } else if j == 5 {
        568065
    } else if j == 6 {
        663123
    } else if j == 7 {
        748511
    } else if j == 8 {
        822984
    } else if j == 9 {
        885456
    } else if j == 10 {
        935016
    } else if j == 11 {
        970942
    } else if j == 12 {
        992709
    } else {
        1000000
    }
}

pub fn sin52(k: u64) -> (r: i64)
    requires
        k < 52,
    ensures
        r as int == sin52_spec(k as int),
{
    if k <= 13 {
        sin52_quarter_exec(k)
    } else if k <= 26 {
        sin52_quarter_exec(26 - k)
    } else if k <= 39 {
        -sin52_quarter_exec(k - 26)
    } else {
        -sin52_quarter_exec(52 - k)
    }
}

pub fn cos52(k: u64) -> (r: i64)
    requires
        k < 52,
    ensures
        r as int == cos52_spec(k as int),
{
    sin52((k + 13) % 52)
}

fn sin12_quarter_exec(j: u64) -> (r: i64)
    requires
        j <= 3,
    ensures
        r as int == sin12_quarter(j as int),
{
    if j == 0 {
        0
    } else if j == 1 {
        500000
    } else if j == 2 {
        866025
    } else {
        1000000
    }
}

pub fn sin12(k: u64) -> (r: i64)
    requires
        k < 12,
    ensures
        r as int == sin12_spec(k as int),
{
    if k <= 3 {
        sin12_quarter_exec(k)
    } else if k <= 6 {
        sin12_quarter_exec(6 - k)
    } else if k <= 9 {
        -sin12_quarter_exec(k - 6)
    } else {
        -sin12_quarter_exec(12 - k)
    }
}

pub fn cos12(k: u64) -> (r: i64)
    requires
        k < 12,
    ensures
        r as int == cos12_spec(k as int),
{
    sin12((k + 3) % 12)
}

} // verus!
