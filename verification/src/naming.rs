//! Names of archive files.
//!
//! An archive is named after its job and the moment it was started:
//! the job name, a hyphen, the time in seconds since the epoch in decimal,
//! a dot and the extension of the format. The `filename` template of the
//! settings is not consulted.

use crate::config::Compression;
use vstd::prelude::*;
use vstd::string::StringExecFns;

verus! {

/// The character of a decimal digit.
pub open spec fn digit_char(d: nat) -> char
    recommends
        d < 10,
{
    if d == 0 {
        '0'
    } else if d == 1 {
        '1'
    } else if d == 2 {
        '2'
    } else if d == 3 {
        '3'
    } else if d == 4 {
        '4'
    } else if d == 5 {
        '5'
    } else if d == 6 {
        '6'
    } else if d == 7 {
        '7'
    } else if d == 8 {
        '8'
    } else {
        '9'
    }
}

/// The decimal numeral of `n`, without leading zeros.
pub open spec fn decimal(n: nat) -> Seq<char>
    decreases n,
{
    if n < 10 {
        seq![digit_char(n)]
    } else {
        decimal(n / 10).push(digit_char(n % 10))
    }
}

/// The file extension of an archive format, without the dot.
pub open spec fn extension_of(format: Compression) -> Seq<char> {
    match format {
        Compression::Zip => "zip"@,
        Compression::Zstd => "tar.zst"@,
    }
}

/// The name of the archive of `job` started at `timestamp`.
pub open spec fn archive_name(job: Seq<char>, timestamp: u64, format: Compression) -> Seq<char> {
    job + seq!['-'] + decimal(timestamp as nat) + seq!['.'] + extension_of(format)
}

/// The path of that archive under the directory `dest`.
pub open spec fn archive_path(
    dest: Seq<char>,
    job: Seq<char>,
    timestamp: u64,
    format: Compression,
) -> Seq<char> {
    dest + seq!['/'] + archive_name(job, timestamp, format)
}

fn digit_text(d: u64) -> (s: &'static str)
    requires
        d < 10,
    ensures
        s@ == seq![digit_char(d as nat)],
{
    proof {
        reveal_strlit("0");
        reveal_strlit("1");
        reveal_strlit("2");
        reveal_strlit("3");
        reveal_strlit("4");
        reveal_strlit("5");
        reveal_strlit("6");
        reveal_strlit("7");
        reveal_strlit("8");
        reveal_strlit("9");
    }
    let s = if d == 0 {
        "0"
    } else if d == 1 {
        "1"
    } else if d == 2 {
        "2"
    } else if d == 3 {
        "3"
    } else if d == 4 {
        "4"
    } else if d == 5 {
        "5"
    } else if d == 6 {
        "6"
    } else if d == 7 {
        "7"
    } else if d == 8 {
        "8"
    } else {
        "9"
    };
    assert(s@ =~= seq![digit_char(d as nat)]);
    s
}

/// Writes `n` in decimal.
pub fn format_decimal(n: u64) -> (s: String)
    ensures
        s@ == decimal(n as nat),
    decreases n,
{
    if n < 10 {
        digit_text(n).to_owned()
    } else {
        let mut s = format_decimal(n / 10);
        s.append(digit_text(n % 10));
        s
    }
}

/// The file extension of an archive format, without the dot.
pub fn extension(format: Compression) -> (s: &'static str)
    ensures
        s@ == extension_of(format),
{
    match format {
        Compression::Zip => "zip",
        Compression::Zstd => "tar.zst",
    }
}

/// The name of the archive of `job` started at `timestamp`.
pub fn backup_file_name(job: &str, timestamp: u64, format: Compression) -> (name: String)
    ensures
        name@ == archive_name(job@, timestamp, format),
{
    proof {
        reveal_strlit("-");
        reveal_strlit(".");
    }
    let mut name = job.to_owned();
    name.append("-");
    assert("-"@ =~= seq!['-']);
    name.append(format_decimal(timestamp).as_str());
    name.append(".");
    assert("."@ =~= seq!['.']);
    name.append(extension(format));
    name
}

/// The path of the archive of `job` started at `timestamp`, under the
/// destination directory `dest`.
pub fn destination_path(dest: &str, job: &str, timestamp: u64, format: Compression) -> (path:
    String)
    ensures
        path@ == archive_path(dest@, job@, timestamp, format),
{
    proof {
        reveal_strlit("/");
    }
    let mut path = dest.to_owned();
    path.append("/");
    assert("/"@ =~= seq!['/']);
    path.append(backup_file_name(job, timestamp, format).as_str());
    path
}

} // verus!
