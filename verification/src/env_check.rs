//! The environment check: which of node, npm, pnpm and dsh can be run, and
//! what version each reports.
use vstd::prelude::*;
use crate::install::opt_string_view;
use crate::launch::strs;
use crate::text::{chars_of, substring};

verus! {

/// One tool of the environment check.
#[derive(Debug)]
pub struct ToolInfo {
    /// Name shown to the user.
    pub name: String,
    /// Whether the tool could be run.
    pub found: bool,
    /// First line of what it printed for its version, when it succeeded.
    pub version: Option<String>,
    /// Where it was found on the search path.
    pub path: Option<String>,
}

/// The environment check (node / npm / pnpm / dsh).
#[derive(Debug)]
pub struct EnvCheckResult {
    pub node: ToolInfo,
    pub npm: ToolInfo,
    pub pnpm: ToolInfo,
    pub dsh: ToolInfo,
    /// node, npm and dsh are all there (pnpm is optional).
    pub all_passed: bool,
}

/// How running a tool with its version flag went.
#[derive(Debug)]
pub enum ProbeRun {
    /// It could not be started, or waiting for it failed.
    CouldNotRun,
    /// It exited; `stdout` is what it printed when that could be read.
    Exited { success: bool, stdout: Option<String> },
    /// It did not finish within the time allowed and was killed.
    TimedOut,
}

/// The first line of an output, trimmed (empty when there is none).
pub open spec fn first_line_spec(out: Seq<char>) -> Seq<char> {
    crate::text::trim(crate::text::split_on(crate::text::trim(out), '\n')[0])
}

/// (found, version) of a probe run.
pub open spec fn probe_spec(run: ProbeRun) -> (bool, Option<Seq<char>>) {
    match run {
        ProbeRun::CouldNotRun => (false, None),
        ProbeRun::TimedOut => (true, None),
        ProbeRun::Exited { success, stdout } => if !success {
            (true, None)
        } else {
            match stdout {
                Some(o) => (true, Some(first_line_spec(o@))),
                None => (true, None),
            }
        },
    }
}

/// The first line of `out`, trimmed.
fn first_line(out: &str) -> (r: String)
    ensures
        r@ == first_line_spec(out@),
{
    let t = crate::text::trim_str(out);
    let chars = chars_of(t.as_str());
    let parts = crate::text::split_chars(&chars, 0, chars.len(), '\n');
    assert(chars@.subrange(0, chars@.len() as int) =~= chars@);
    proof { crate::text::lemma_split_nonempty(t@, '\n'); }
    let first = &parts[0];
    let (a, b) = crate::text::trim_bounds(first, 0, first.len());
    assert(first@.subrange(0, first@.len() as int) =~= first@);
    substring(first, a, b)
}

/// Whether the tool was found, and the version it reported, from how
/// running it went.
pub fn probe_result(run: ProbeRun) -> (r: (bool, Option<String>))
    ensures
        (r.0, opt_string_view(r.1)) == probe_spec(run),
{
    match run {
        ProbeRun::CouldNotRun => (false, None),
        ProbeRun::TimedOut => (true, None),
        ProbeRun::Exited { success, stdout } => {
            if !success {
                (true, None)
            } else {
                match stdout {
                    Some(o) => (true, Some(first_line(o.as_str()))),
                    None => (true, None),
                }
            }
        },
    }
}

/// The result of the environment check from the probes of node, npm, pnpm
/// and dsh, each (found, version, path).
pub fn check_env(
    node: (bool, Option<String>, Option<String>),
    npm: (bool, Option<String>, Option<String>),
    pnpm: (bool, Option<String>, Option<String>),
    dsh: (bool, Option<String>, Option<String>),
) -> (r: EnvCheckResult)
    ensures
        r.node.name@ == "Node.js"@ && r.node.found == node.0 && r.node.version == node.1 && r.node.path == node.2,
        r.npm.name@ == "npm"@ && r.npm.found == npm.0 && r.npm.version == npm.1 && r.npm.path == npm.2,
        r.pnpm.name@ == "pnpm"@ && r.pnpm.found == pnpm.0 && r.pnpm.version == pnpm.1 && r.pnpm.path == pnpm.2,
        r.dsh.name@ == "DeepSeek Harness (dsh)"@ && r.dsh.found == dsh.0 && r.dsh.version == dsh.1 && r.dsh.path == dsh.2,
        r.all_passed == (node.0 && npm.0 && dsh.0),
{
    let all_passed = node.0 && npm.0 && dsh.0;
    EnvCheckResult {
        node: ToolInfo { name: String::from_str("Node.js"), found: node.0, version: node.1, path: node.2 },
        npm: ToolInfo { name: String::from_str("npm"), found: npm.0, version: npm.1, path: npm.2 },
        pnpm: ToolInfo { name: String::from_str("pnpm"), found: pnpm.0, version: pnpm.1, path: pnpm.2 },
        dsh: ToolInfo { name: String::from_str("DeepSeek Harness (dsh)"), found: dsh.0, version: dsh.1, path: dsh.2 },
        all_passed,
    }
}

/// Where a tool is looked for on Unix: each directory of `PATH`, then
/// `~/.local/bin` and `~/.volta/bin` when the home directory is known.
pub open spec fn tool_dirs_spec(path_dirs: Seq<Seq<char>>, home: Option<Seq<char>>) -> Seq<Seq<char>> {
    match home {
        Some(h) => path_dirs.push(crate::state::join_path(h, ".local/bin"@)).push(crate::state::join_path(h, ".volta/bin"@)),
        None => path_dirs,
    }
}

/// The candidate paths of tool `name` on Unix, in search order.
pub fn tool_candidates(name: &str, path_dirs: &Vec<String>, home: Option<&str>) -> (r: Vec<String>)
    ensures
        strs(r@) == crate::launch::candidates_spec(name@, tool_dirs_spec(strs(path_dirs@), match home { Some(h) => Some(h@), None => None })),
{
    let mut dirs: Vec<String> = Vec::new();
    let mut i: usize = 0;
    while i < path_dirs.len()
        invariant
            i <= path_dirs@.len(),
            strs(dirs@) == strs(path_dirs@).take(i as int),
        decreases path_dirs.len() - i,
    {
        let ghost before = dirs@;
        let c = path_dirs[i].clone();
        dirs.push(c);
        proof {
            crate::launch::lemma_strs_push(before, c);
            assert(strs(dirs@) =~= strs(path_dirs@).take(i + 1));
        }
        i = i + 1;
    }
    assert(strs(path_dirs@).take(path_dirs@.len() as int) =~= strs(path_dirs@));
    match home {
        Some(h) => {
            let ghost b0 = dirs@;
            let a = crate::state::join_path_str(h, ".local/bin");
            dirs.push(a);
            proof { crate::launch::lemma_strs_push(b0, a); }
            let ghost b1 = dirs@;
            let v = crate::state::join_path_str(h, ".volta/bin");
            dirs.push(v);
            proof { crate::launch::lemma_strs_push(b1, v); }
        },
        None => {},
    }
    crate::launch::lookup_candidates(name, &dirs)
}

/// The extensions tried on Windows, in order.
pub open spec fn windows_exts() -> Seq<Seq<char>> {
    seq![".cmd"@, ".exe"@, ".bat"@, ".ps1"@, ""@]
}

/// The candidate paths of tool `name` on Windows: each extension of
/// [`windows_exts`] in each directory, directory by directory.
pub fn windows_tool_candidates(name: &str, dirs: &Vec<String>) -> (r: Vec<String>)
    ensures
        r@.len() == 5 * dirs@.len(),
        forall|d: int, n: int| 0 <= d < dirs@.len() && 0 <= n < 5 ==>
            #[trigger] r@[5 * d + n]@ == crate::state::join_path(dirs@[d]@, name@ + windows_exts()[n]),
{
    let mut out: Vec<String> = Vec::new();
    let mut d: usize = 0;
    while d < dirs.len()
        invariant
            d <= dirs@.len(),
            out@.len() == 5 * d,
            forall|x: int, n: int| 0 <= x < d && 0 <= n < 5 ==>
                #[trigger] out@[5 * x + n]@ == crate::state::join_path(dirs@[x]@, name@ + windows_exts()[n]),
        decreases dirs.len() - d,
    {
        let ghost before = out@;
        let f0 = crate::text::concat_str(name, ".cmd");
        out.push(crate::state::join_path_str(dirs[d].as_str(), f0.as_str()));
        let f1 = crate::text::concat_str(name, ".exe");
        out.push(crate::state::join_path_str(dirs[d].as_str(), f1.as_str()));
        let f2 = crate::text::concat_str(name, ".bat");
        out.push(crate::state::join_path_str(dirs[d].as_str(), f2.as_str()));
        let f3 = crate::text::concat_str(name, ".ps1");
        out.push(crate::state::join_path_str(dirs[d].as_str(), f3.as_str()));
        let f4 = crate::text::concat_str(name, "");
        out.push(crate::state::join_path_str(dirs[d].as_str(), f4.as_str()));
        assert forall|x: int, n: int| 0 <= x < d + 1 && 0 <= n < 5 implies
            #[trigger] out@[5 * x + n]@ == crate::state::join_path(dirs@[x]@, name@ + windows_exts()[n]) by {
            if x < d {
                assert(out@[5 * x + n] == before[5 * x + n]);
            }
        }
        d = d + 1;
    }
    out
}

} // verus!
