//! Crash reports: their configuration and contents, the timestamp format,
//! the report file name and the system description. Catching panics and
//! writing or uploading reports are done by the application.

use vstd::prelude::*;
use crate::config::{join_path, path_join_spec};
use crate::text::{
    chars_of, decimal, decimal_spec, owned, padded_decimal, push_all, push_str, replace_spec,
    replace_str, string_from, zero_pad_spec,
};

verus! {

/// Crash reporter settings.
#[derive(Debug)]
pub struct CrashReporterConfig {
    /// Company or application name.
    pub company_name: String,
    /// Where reports are sent.
    pub submit_url: Option<String>,
    /// Include a system description.
    pub include_system_info: bool,
    /// Where reports are stored.
    pub crash_dir: String,
    /// Upload reports.
    pub upload_to_server: bool,
    /// Extra metadata, as (name, value) pairs.
    pub extra: Vec<(String, String)>,
}

/// A crash report.
#[derive(Debug)]
pub struct CrashReport {
    pub version: String,
    pub platform: String,
    pub timestamp: String,
    pub error_message: String,
    pub error_type: String,
    pub stack_trace: String,
    pub system_info: Option<String>,
    pub extra: Vec<(String, String)>,
}

/// The default crash directory under a base directory: `<base>/nefu/crashes`.
pub fn default_crash_dir(base: &str) -> (r: String)
    ensures
        r@ == path_join_spec(path_join_spec(base@, "nefu"@), "crashes"@),
{
    let a = join_path(base, "nefu");
    join_path(a.as_str(), "crashes")
}

impl CrashReporterConfig {
    /// The default settings with reports stored under the default directory
    /// of a base directory.
    pub fn with_base_dir(base: &str) -> (r: CrashReporterConfig)
        ensures
            r.company_name@ == "Nefu"@,
            r.submit_url is None,
            r.include_system_info,
            r.crash_dir@ == path_join_spec(path_join_spec(base@, "nefu"@), "crashes"@),
            !r.upload_to_server,
            r.extra@.len() == 0,
    {
        CrashReporterConfig {
            company_name: owned("Nefu"),
            submit_url: None,
            include_system_info: true,
            crash_dir: default_crash_dir(base),
            upload_to_server: false,
            extra: Vec::new(),
        }
    }
}

/// The timestamp text of a time in seconds since 1970: years of 365 days
/// and months of 30 days counted from 1970-01-01, as
/// `YYYY-MM-DD hh:mm:ss` (each field zero-padded).
pub open spec fn timestamp_spec(secs: u64) -> Seq<char> {
    let days = secs / 86400;
    zero_pad_spec(decimal_spec((1970 + days / 365) as nat), 4) + "-"@ + zero_pad_spec(
        decimal_spec(((days % 365) / 30 + 1) as nat),
        2,
    ) + "-"@ + zero_pad_spec(decimal_spec(((days % 365) % 30 + 1) as nat), 2) + " "@ + zero_pad_spec(
        decimal_spec(((secs % 86400) / 3600) as nat),
        2,
    ) + ":"@ + zero_pad_spec(decimal_spec(((secs % 3600) / 60) as nat), 2) + ":"@ + zero_pad_spec(
        decimal_spec((secs % 60) as nat),
        2,
    )
}

/// Formats a time given in seconds since 1970.
pub fn format_timestamp(secs: u64) -> (r: String)
    ensures
        r@ == timestamp_spec(secs),
{
    let days = secs / 86400;
    let mut v = padded_decimal(1970 + days / 365, 4);
    push_str(&mut v, "-");
    push_all(&mut v, padded_decimal((days % 365) / 30 + 1, 2).as_slice());
    push_str(&mut v, "-");
    push_all(&mut v, padded_decimal((days % 365) % 30 + 1, 2).as_slice());
    push_str(&mut v, " ");
    push_all(&mut v, padded_decimal((secs % 86400) / 3600, 2).as_slice());
    push_str(&mut v, ":");
    push_all(&mut v, padded_decimal((secs % 3600) / 60, 2).as_slice());
    push_str(&mut v, ":");
    push_all(&mut v, padded_decimal(secs % 60, 2).as_slice());
    string_from(v.as_slice())
}

/// The file name of a report: `crash_<timestamp>_<pid>.json`, with `:` in
/// the timestamp made `-` and spaces made `_`.
pub open spec fn crash_file_name_spec(timestamp: Seq<char>, pid: u32) -> Seq<char> {
    "crash_"@ + replace_spec(replace_spec(timestamp, ":"@, "-"@), " "@, "_"@) + "_"@ + decimal_spec(
        pid as nat,
    ) + ".json"@
}

/// The file name of a report made at `timestamp` by process `pid`.
pub fn crash_file_name(timestamp: &str, pid: u32) -> (r: String)
    ensures
        r@ == crash_file_name_spec(timestamp@, pid),
{
    proof {
        reveal_strlit(":");
        reveal_strlit(" ");
    }
    let t = chars_of(timestamp);
    let a = replace_str(t.as_slice(), ":", "-");
    let b = replace_str(a.as_slice(), " ", "_");
    let mut v = chars_of("crash_");
    push_all(&mut v, b.as_slice());
    push_str(&mut v, "_");
    push_all(&mut v, decimal(pid as u64).as_slice());
    push_str(&mut v, ".json");
    string_from(v.as_slice())
}

/// The system description of a report: operating system, architecture and
/// process id, one per line.
pub fn system_info_text(os: &str, arch: &str, pid: u32) -> (r: String)
    ensures
        r@ == "OS: "@ + os@ + "\nArch: "@ + arch@ + "\nPID: "@ + decimal_spec(pid as nat) + "\n"@,
{
    let mut v = chars_of("OS: ");
    push_str(&mut v, os);
    push_str(&mut v, "\nArch: ");
    push_str(&mut v, arch);
    push_str(&mut v, "\nPID: ");
    push_all(&mut v, decimal(pid as u64).as_slice());
    push_str(&mut v, "\n");
    string_from(v.as_slice())
}

/// The texts of metadata pairs.
pub open spec fn pair_texts(v: Seq<(String, String)>) -> Seq<(Seq<char>, Seq<char>)> {
    v.map_values(|p: (String, String)| (p.0@, p.1@))
}

fn copy_pairs(v: &Vec<(String, String)>) -> (r: Vec<(String, String)>)
    ensures
        pair_texts(r@) == pair_texts(v@),
{
    let mut out: Vec<(String, String)> = Vec::new();
    let mut i: usize = 0;
    while i < v.len()
        invariant
            0 <= i <= v@.len(),
            pair_texts(out@) == pair_texts(v@).take(i as int),
        decreases v@.len() - i,
    {
        let ghost before = pair_texts(out@);
        let p = (owned(v[i].0.as_str()), owned(v[i].1.as_str()));
        out.push(p);
        assert(pair_texts(out@) =~= before.push((v@[i as int].0@, v@[i as int].1@)));
        assert(pair_texts(v@).take(i + 1) =~= pair_texts(v@).take(i as int).push(pair_texts(v@)[i as int]));
        i = i + 1;
    }
    assert(pair_texts(v@).take(v@.len() as int) =~= pair_texts(v@));
    out
}

/// The place of a panic: `file:line`, or `Unknown location`.
pub open spec fn location_text(location: Option<(Seq<char>, u32)>) -> Seq<char> {
    match location {
        Some((f, l)) => f + ":"@ + decimal_spec(l as nat),
        None => "Unknown location"@,
    }
}

/// The report of a panic: its message (`Unknown panic` where it carried no
/// text), where it happened, and, where the settings ask for it, the
/// system description; version `1.0.0` and the settings' extra metadata.
pub fn panic_report(
    config: &CrashReporterConfig,
    platform: &str,
    timestamp: String,
    message: Option<String>,
    location: Option<(String, u32)>,
    system_info: String,
) -> (r: CrashReport)
    ensures
        r.version@ == "1.0.0"@,
        r.platform@ == platform@,
        r.timestamp@ == timestamp@,
        r.error_message@ == (match message {
            Some(m) => m@,
            None => "Unknown panic"@,
        }),
        r.error_type@ == "Panic"@,
        r.stack_trace@ == "Panic at: "@ + location_text(
            match location {
                Some((f, l)) => Some((f@, l)),
                None => None,
            },
        ) + "\n\nError: "@ + r.error_message@,
        r.system_info == (if config.include_system_info {
            Some(system_info)
        } else {
            None
        }),
        pair_texts(r.extra@) == pair_texts(config.extra@),
{
    let msg = match message {
        Some(m) => m,
        None => owned("Unknown panic"),
    };
    let mut trace = chars_of("Panic at: ");
    match &location {
        Some((f, l)) => {
            push_str(&mut trace, f.as_str());
            push_str(&mut trace, ":");
            push_all(&mut trace, decimal(*l as u64).as_slice());
        },
        None => push_str(&mut trace, "Unknown location"),
    }
    push_str(&mut trace, "\n\nError: ");
    push_str(&mut trace, msg.as_str());
    CrashReport {
        version: owned("1.0.0"),
        platform: owned(platform),
        timestamp,
        error_message: msg,
        error_type: owned("Panic"),
        stack_trace: string_from(trace.as_slice()),
        system_info: if config.include_system_info {
            Some(system_info)
        } else {
            None
        },
        extra: copy_pairs(&config.extra),
    }
}

/// The test report: a `Test` error with a three-line trace, the system
/// description where the settings ask for it, and their extra metadata.
pub fn test_report(config: &CrashReporterConfig, platform: &str, timestamp: String, system_info: String) -> (r: CrashReport)
    ensures
        r.version@ == "1.0.0"@,
        r.platform@ == platform@,
        r.timestamp@ == timestamp@,
        r.error_message@ == "Test crash report"@,
        r.error_type@ == "Test"@,
        r.stack_trace@ == "test\nbacktrace\nline 3"@,
        r.system_info == (if config.include_system_info {
            Some(system_info)
        } else {
            None
        }),
        pair_texts(r.extra@) == pair_texts(config.extra@),
{
    CrashReport {
        version: owned("1.0.0"),
        platform: owned(platform),
        timestamp,
        error_message: owned("Test crash report"),
        error_type: owned("Test"),
        stack_trace: owned("test\nbacktrace\nline 3"),
        system_info: if config.include_system_info {
            Some(system_info)
        } else {
            None
        },
        extra: copy_pairs(&config.extra),
    }
}

} // verus!
