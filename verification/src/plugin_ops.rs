//! Plugin operations run through `dsh plugin --profile <name> …`: the
//! command line, how its outcome reads, and the messages shown for it.
use vstd::prelude::*;
use crate::launch::strs;
use crate::text::{chars_of, string_from_chars, concat_str, decimal_string};

verus! {

/// `dsh` arguments of a plugin operation on `profile`.
pub open spec fn plugin_args_spec(profile: Seq<char>, args: Seq<Seq<char>>) -> Seq<Seq<char>> {
    seq!["plugin"@, "--profile"@, profile] + args
}

/// The `dsh` arguments of the plugin operation `args` on `profile`.
pub fn plugin_command_args(profile: &str, args: &Vec<String>) -> (r: Vec<String>)
    ensures
        strs(r@) == plugin_args_spec(profile@, strs(args@)),
{
    let mut out: Vec<String> = Vec::new();
    out.push(String::from_str("plugin"));
    out.push(String::from_str("--profile"));
    out.push(String::from_str(profile));
    let mut i: usize = 0;
    while i < args.len()
        invariant
            i <= args@.len(),
            strs(out@) == seq!["plugin"@, "--profile"@, profile@] + strs(args@).take(i as int),
        decreases args.len() - i,
    {
        let ghost before = out@;
        let c = args[i].clone();
        out.push(c);
        proof {
            crate::launch::lemma_strs_push(before, c);
            assert(strs(out@) =~= seq!["plugin"@, "--profile"@, profile@] + strs(args@).take(i + 1));
        }
        i = i + 1;
    }
    assert(strs(args@).take(args@.len() as int) =~= strs(args@));
    out
}

/// `{:?}` of an exit code.
pub open spec fn exit_code_debug(code: Option<i32>) -> Seq<char> {
    match code {
        Some(c) => "Some("@ + (if c < 0 { "-"@ + crate::text::decimal((-c) as nat) } else { crate::text::decimal(c as nat) }) + ")"@,
        None => "None"@,
    }
}

/// The outcome of a plugin operation from what it printed and how it
/// exited: the output (stdout then stderr, trimmed) on success; on failure
/// that output, or a message with the exit code when it printed nothing.
pub open spec fn outcome_spec(stdout: Seq<char>, stderr: Seq<char>, success: bool, code: Option<i32>) -> Result<Seq<char>, Seq<char>> {
    let combined = crate::text::trim(stdout + stderr);
    if success {
        Ok(combined)
    } else if combined.len() == 0 {
        Err("dsh 插件操作失败（退出码 "@ + exit_code_debug(code) + "）"@)
    } else {
        Err(combined)
    }
}

/// `{:?}` of an exit code.
fn exit_code_text(code: Option<i32>) -> (r: String)
    ensures
        r@ == exit_code_debug(code),
{
    match code {
        Some(c) => {
            let digits = if c < 0 {
                let m: i64 = -(c as i64);
                let d = decimal_string(m as u64);
                concat_str("-", d.as_str())
            } else {
                decimal_string(c as u64)
            };
            let a = concat_str("Some(", digits.as_str());
            concat_str(a.as_str(), ")")
        },
        None => String::from_str("None"),
    }
}

/// How a finished plugin operation reads, from its output and exit.
pub fn execution_outcome(stdout: &str, stderr: &str, success: bool, code: Option<i32>) -> (r: Result<String, String>)
    ensures
        match (r, outcome_spec(stdout@, stderr@, success, code)) {
            (Ok(a), Ok(b)) => a@ == b,
            (Err(a), Err(b)) => a@ == b,
            _ => false,
        },
{
    let all = concat_str(stdout, stderr);
    let combined = crate::text::trim_str(all.as_str());
    if success {
        Ok(combined)
    } else if combined.as_str().is_empty() {
        let c = exit_code_text(code);
        let a = concat_str("dsh 插件操作失败（退出码 ", c.as_str());
        Err(concat_str(a.as_str(), "）"))
    } else {
        Err(combined)
    }
}

/// Message of an operation that ran out of time.
pub fn op_timeout_message() -> (m: String)
    ensures
        m@ == "插件操作超时（5 分钟）"@,
{
    String::from_str("插件操作超时（5 分钟）")
}

/// What the output contributes to a summary: at most its first 120
/// characters, or "完成" when empty.
pub open spec fn detail_of(output: Seq<char>) -> Seq<char> {
    if output.len() == 0 { "完成"@ } else if output.len() > 120 { output.take(120) } else { output }
}

/// A readable summary of an operation `args` with output `output`.
pub open spec fn summarize_spec(args: Seq<Seq<char>>, output: Seq<char>, ok: bool) -> Seq<char> {
    let first = if args.len() > 0 { args[0] } else { Seq::empty() };
    let target = if args.len() > 1 { args[1] } else { Seq::empty() };
    let detail = detail_of(output);
    if !ok {
        "插件操作失败："@ + detail
    } else if first == "add"@ {
        "已安装插件「"@ + target + "」· "@ + detail
    } else if first == "remove"@ || first == "rm"@ {
        "已卸载插件「"@ + target + "」· "@ + detail
    } else if first == "update"@ || first == "up"@ {
        "已升级插件「"@ + target + "」· "@ + detail
    } else if first == "outdated"@ {
        "检查完成："@ + detail
    } else {
        "插件操作完成："@ + detail
    }
}

/// `a`, `b`, `c` and `d` in a row.
fn concat4(a: &str, b: &str, c: &str, d: &str) -> (r: String)
    ensures
        r@ == a@ + b@ + c@ + d@,
{
    let ab = concat_str(a, b);
    let abc = concat_str(ab.as_str(), c);
    concat_str(abc.as_str(), d)
}

/// A readable summary of the plugin operation `args` that printed `output`.
pub fn summarize(args: &Vec<String>, output: &str, ok: bool) -> (s: String)
    ensures
        s@ == summarize_spec(strs(args@), output@, ok),
{
    let chars = chars_of(output);
    let detail = if chars.len() == 0 {
        String::from_str("完成")
    } else if chars.len() > 120 {
        let v = crate::text::subvec(&chars, 0, 120);
        assert(v@ =~= output@.take(120));
        string_from_chars(&v)
    } else {
        String::from_str(output)
    };
    if !ok {
        return concat_str("插件操作失败：", detail.as_str());
    }
    let empty = String::new();
    let first: &str = if args.len() > 0 { args[0].as_str() } else { empty.as_str() };
    let target: &str = if args.len() > 1 { args[1].as_str() } else { empty.as_str() };
    proof {
        if args@.len() > 0 { assert(strs(args@)[0] == args@[0]@); }
        if args@.len() > 1 { assert(strs(args@)[1] == args@[1]@); }
    }
    if crate::text::str_eq(first, "add") {
        concat4("已安装插件「", target, "」· ", detail.as_str())
    } else if crate::text::str_eq(first, "remove") || crate::text::str_eq(first, "rm") {
        concat4("已卸载插件「", target, "」· ", detail.as_str())
    } else if crate::text::str_eq(first, "update") || crate::text::str_eq(first, "up") {
        concat4("已升级插件「", target, "」· ", detail.as_str())
    } else if crate::text::str_eq(first, "outdated") {
        concat_str("检查完成：", detail.as_str())
    } else {
        concat_str("插件操作完成：", detail.as_str())
    }
}

/// Arguments of the query for outdated plugins.
pub fn outdated_args() -> (r: Vec<String>)
    ensures
        strs(r@) == seq!["outdated"@, "--format"@, "json"@],
{
    let mut v: Vec<String> = Vec::new();
    v.push(String::from_str("outdated"));
    v.push(String::from_str("--format"));
    v.push(String::from_str("json"));
    assert(strs(v@) =~= seq!["outdated"@, "--format"@, "json"@]);
    v
}

/// The plugins of a profile with a newer version, (name, latest), from the
/// outcome of the outdated query: its error, or its output read.
pub fn outdated_packages(output: Result<String, String>) -> (r: Result<Vec<(String, String)>, String>)
    ensures
        match (output, r) {
            (Ok(o), Ok(v)) => crate::plugins::pair_views(v@) == crate::plugins::outdated_spec(o@),
            (Err(e), Err(f)) => e == f,
            _ => false,
        },
{
    match output {
        Ok(o) => Ok(crate::plugins::parse_outdated_json(o.as_str())),
        Err(e) => Err(e),
    }
}

/// What to do when asked to upgrade a plugin.
#[derive(Debug)]
pub enum UpdateStep {
    /// Tell the user, without upgrading.
    Report { ok: bool, message: String },
    /// Run the plugin operation with these arguments.
    Upgrade { args: Vec<String> },
}

/// Whether `name` is among the outdated (name, latest) pairs.
pub open spec fn listed_outdated(pairs: Seq<(Seq<char>, Seq<char>)>, name: Seq<char>) -> bool {
    exists|i: int| 0 <= i < pairs.len() && pairs[i].0 == name
}

/// The upgrade of `package` is only run when the outdated query lists it:
/// a failed query and an up-to-date package are reported instead.
pub fn update_decision(package: &str, outdated: Result<Vec<(String, String)>, String>) -> (step: UpdateStep)
    ensures
        match outdated {
            Err(e) => step matches UpdateStep::Report { ok, message } && !ok && message@ == "检查新版失败："@ + e@,
            Ok(v) => if listed_outdated(crate::plugins::pair_views(v@), package@) {
                step matches UpdateStep::Upgrade { args } && strs(args@) == seq!["update"@, package@]
            } else {
                step matches UpdateStep::Report { ok, message } && ok && message@ == "「"@ + package@ + "」已是最新版本，无需升级"@
            },
        },
{
    match outdated {
        Err(e) => UpdateStep::Report { ok: false, message: concat_str("检查新版失败：", e.as_str()) },
        Ok(v) => {
            let mut i: usize = 0;
            let mut found = false;
            while i < v.len()
                invariant
                    i <= v@.len(),
                    found == exists|j: int| 0 <= j < i && crate::plugins::pair_views(v@)[j].0 == package@,
                decreases v.len() - i,
            {
                assert(crate::plugins::pair_views(v@)[i as int].0 == v@[i as int].0@);
                if crate::text::str_eq(v[i].0.as_str(), package) {
                    found = true;
                }
                i = i + 1;
            }
            if found {
                let mut args: Vec<String> = Vec::new();
                args.push(String::from_str("update"));
                args.push(String::from_str(package));
                assert(strs(args@) =~= seq!["update"@, package@]);
                UpdateStep::Upgrade { args }
            } else {
                let a = concat_str("「", package);
                UpdateStep::Report { ok: true, message: concat_str(a.as_str(), "」已是最新版本，无需升级") }
            }
        },
    }
}

/// The (ok, message) reported for a finished operation `args`.
pub fn op_report(args: &Vec<String>, result: Result<String, String>) -> (r: (bool, String))
    ensures
        match result {
            Ok(o) => r.0 && r.1@ == summarize_spec(strs(args@), o@, true),
            Err(e) => !r.0 && r.1 == e,
        },
{
    match result {
        Ok(o) => (true, summarize(args, o.as_str(), true)),
        Err(e) => (false, e),
    }
}

/// Message shown while an operation runs: `正在<action>…`.
pub fn start_message(action: &str) -> (m: String)
    ensures
        m@ == "正在"@ + action@ + "…"@,
{
    let a = concat_str("正在", action);
    concat_str(a.as_str(), "…")
}

/// Message shown while checking `package` for a newer version.
pub fn check_message(package: &str) -> (m: String)
    ensures
        m@ == "正在检查「"@ + package@ + "」是否有新版…"@,
{
    let a = concat_str("正在检查「", package);
    concat_str(a.as_str(), "」是否有新版…")
}

/// Arguments of a single-package operation: `<verb> <package>`.
pub fn package_args(verb: &str, package: &str) -> (r: Vec<String>)
    ensures
        strs(r@) == seq![verb@, package@],
{
    let mut v: Vec<String> = Vec::new();
    v.push(String::from_str(verb));
    v.push(String::from_str(package));
    assert(strs(v@) =~= seq![verb@, package@]);
    v
}

} // verus!
