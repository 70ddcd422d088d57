//! What the dashboard shows: the shell state, profile cards, and the short
//! texts derived from them.
use vstd::prelude::*;
use crate::kernel::{Kernel, KernelState, KernelStatus};
use crate::text::{chars_of, subvec, concat_vec, lit, string_from_chars, concat_str, decimal_string};

verus! {

/// What the main window shows.
#[derive(Debug)]
pub enum ShellState {
    Loading,
    Ready { url: String },
    Error(String),
    /// dsh is missing: show the install guide.
    Guide,
    Stopped,
}

/// The status light of a profile card.
#[derive(Debug, Clone, Copy, PartialEq, Eq, Structural)]
pub enum CardStatus {
    Running,
    Starting,
    Stopped,
    Error,
}

/// The shell state a kernel status event leads to.
pub fn shell_state_for(status: KernelStatus) -> (s: ShellState)
    ensures
        s == match status {
            KernelStatus::Ready { url } => ShellState::Ready { url: url },
            KernelStatus::Starting => ShellState::Loading,
            KernelStatus::Error { message } => ShellState::Error(message),
            KernelStatus::Guide => ShellState::Guide,
            KernelStatus::Stopped => ShellState::Stopped,
        },
{
    match status {
        KernelStatus::Ready { url } => ShellState::Ready { url },
        KernelStatus::Starting => ShellState::Loading,
        KernelStatus::Error { message } => ShellState::Error(message),
        KernelStatus::Guide => ShellState::Guide,
        KernelStatus::Stopped => ShellState::Stopped,
    }
}

/// The shell state read from the kernel when the window opens: a crash
/// with no dsh found shows the install guide.
pub fn snapshot_from_kernel(k: &Kernel) -> (s: ShellState)
    ensures
        s == match k.state {
            KernelState::Stopped => ShellState::Stopped,
            KernelState::Starting => ShellState::Loading,
            KernelState::Ready { url, .. } => ShellState::Ready { url: url },
            KernelState::Crashed { last_error, .. } => if k.launcher is Some {
                ShellState::Error(last_error)
            } else {
                ShellState::Guide
            },
        },
{
    match &k.state {
        KernelState::Stopped => ShellState::Stopped,
        KernelState::Starting => ShellState::Loading,
        KernelState::Ready { url, .. } => ShellState::Ready { url: url.clone() },
        KernelState::Crashed { last_error, .. } => {
            if k.dsh_available() {
                ShellState::Error(last_error.clone())
            } else {
                ShellState::Guide
            }
        },
    }
}

/// Whether a status takes the window back to the shell page (the kernel
/// no longer serves: restarting, or failed).
pub fn resets_view(status: &KernelStatus) -> (b: bool)
    ensures
        b == (status is Starting || status is Error),
{
    match status {
        KernelStatus::Starting | KernelStatus::Error { .. } => true,
        _ => false,
    }
}

/// The status word of the title bar.
pub open spec fn titlebar_text(s: ShellState) -> Seq<char> {
    match s {
        ShellState::Ready { .. } => "已就绪"@,
        ShellState::Loading => "启动中"@,
        ShellState::Error(_) => "出错"@,
        ShellState::Guide => "待安装 dsh"@,
        ShellState::Stopped => "已停止"@,
    }
}

/// The status word of the title bar for `s`.
pub fn titlebar_status(s: &ShellState) -> (r: &'static str)
    ensures
        r@ == titlebar_text(*s),
{
    match s {
        ShellState::Ready { .. } => "已就绪",
        ShellState::Loading => "启动中",
        ShellState::Error(_) => "出错",
        ShellState::Guide => "待安装 dsh",
        ShellState::Stopped => "已停止",
    }
}

/// The status light of the card of `profile`: only the profile the kernel
/// runs is lit.
pub fn card_status(k: &Kernel, profile: &str) -> (c: CardStatus)
    ensures
        c == (if k.config.profile@ != profile@ {
            CardStatus::Stopped
        } else {
            match k.state {
                KernelState::Ready { .. } => CardStatus::Running,
                KernelState::Starting => CardStatus::Starting,
                KernelState::Crashed { .. } => CardStatus::Error,
                KernelState::Stopped => CardStatus::Stopped,
            }
        }),
{
    if !crate::text::str_eq(k.config.profile.as_str(), profile) {
        return CardStatus::Stopped;
    }
    match &k.state {
        KernelState::Ready { .. } => CardStatus::Running,
        KernelState::Starting => CardStatus::Starting,
        KernelState::Crashed { .. } => CardStatus::Error,
        KernelState::Stopped => CardStatus::Stopped,
    }
}

/// The port shown on the card of `profile`: the kernel's, when it runs that profile.
pub fn card_port(k: &Kernel, profile: &str) -> (p: Option<u16>)
    ensures
        p == (if k.config.profile@ == profile@ { k.current_port } else { None }),
{
    if crate::text::str_eq(k.config.profile.as_str(), profile) {
        k.current_port
    } else {
        None
    }
}

/// The address "open in browser" uses: the kernel's URL once it is ready.
pub fn browser_url(k: &Kernel) -> (r: Option<String>)
    ensures
        crate::install::opt_string_view(r) == match k.state {
            KernelState::Ready { url, .. } => if url@.len() > 0 { Some(url@) } else { None },
            _ => None,
        },
{
    match &k.state {
        KernelState::Ready { url, .. } => {
            if url.as_str().is_empty() { None } else { Some(url.clone()) }
        },
        _ => None,
    }
}

/// `s` shortened to its first and last `max / 2` characters around `…`
/// when longer than `max`.
pub open spec fn shorten_spec(s: Seq<char>, max: nat) -> Seq<char> {
    if s.len() <= max {
        s
    } else {
        s.take((max / 2) as int) + seq!['…'] + s.skip(s.len() - max / 2)
    }
}

/// `s` shortened for display to about `max` characters.
pub fn shorten_path(s: &str, max: usize) -> (r: String)
    ensures
        r@ == shorten_spec(s@, max as nat),
{
    let chars = chars_of(s);
    if chars.len() <= max {
        return String::from_str(s);
    }
    let half = max / 2;
    let head = subvec(&chars, 0, half);
    let tail = subvec(&chars, chars.len() - half, chars.len());
    let mut dots: Vec<char> = Vec::new();
    dots.push('…');
    let a = concat_vec(&head, &dots);
    let all = concat_vec(&a, &tail);
    assert(all@ =~= shorten_spec(s@, max as nat));
    string_from_chars(&all)
}

/// How long ago the last session was.
pub open spec fn ago_text(seconds_ago: Option<u64>) -> Seq<char> {
    match seconds_ago {
        Some(s) => if s < 60 {
            crate::text::decimal(s as nat) + " 秒前"@
        } else if s < 3600 {
            crate::text::decimal((s / 60) as nat) + " 分钟前"@
        } else {
            crate::text::decimal((s / 3600) as nat) + " 小时前"@
        },
        None => "暂无"@,
    }
}

/// "N 个会话 · M 分钟前": the session count and the age of the last one
/// (`seconds_ago`, when known).
pub fn session_text(count: usize, seconds_ago: Option<u64>) -> (r: String)
    ensures
        r@ == crate::text::decimal(count as nat) + " 个会话 · "@ + ago_text(seconds_ago),
{
    let ago = match seconds_ago {
        Some(s) => {
            if s < 60 {
                let d = decimal_string(s);
                concat_str(d.as_str(), " 秒前")
            } else if s < 3600 {
                let d = decimal_string(s / 60);
                concat_str(d.as_str(), " 分钟前")
            } else {
                let d = decimal_string(s / 3600);
                concat_str(d.as_str(), " 小时前")
            }
        },
        None => String::from_str("暂无"),
    };
    let c = decimal_string(count as u64);
    let a = concat_str(c.as_str(), " 个会话 · ");
    concat_str(a.as_str(), ago.as_str())
}

/// The font family to apply: the chosen one, or the system UI font when
/// none, empty, or one of the names that mean the default.
pub open spec fn font_family_spec(font: Option<Seq<char>>) -> Seq<char> {
    match font {
        Some(f) => if f.len() > 0 && f != "default"@ && f != "系统默认"@ && f != ".SystemUIFont"@ {
            f
        } else {
            ".SystemUIFont"@
        },
        None => ".SystemUIFont"@,
    }
}

/// The font family to apply for the chosen `font`.
pub fn font_family(font: Option<&str>) -> (r: String)
    ensures
        r@ == font_family_spec(match font { Some(f) => Some(f@), None => None }),
{
    match font {
        Some(f) => {
            if !f.is_empty() && !crate::text::str_eq(f, "default") && !crate::text::str_eq(f, "系统默认")
                && !crate::text::str_eq(f, ".SystemUIFont") {
                String::from_str(f)
            } else {
                String::from_str(".SystemUIFont")
            }
        },
        None => String::from_str(".SystemUIFont"),
    }
}

/// The first line of npm's error output that is not blank, or a generic
/// message when there is none.
pub open spec fn npm_failure_spec(stderr: Seq<char>) -> Seq<char> {
    let lines = crate::detect::lines_of(stderr);
    if exists|i: int| 0 <= i < lines.len() && crate::text::trim(#[trigger] lines[i]).len() > 0 {
        lines[choose|i: int| 0 <= i < lines.len() && crate::text::trim(#[trigger] lines[i]).len() > 0
            && forall|j: int| 0 <= j < i ==> crate::text::trim(#[trigger] lines[j]).len() == 0]
    } else {
        "npm 进程退出异常"@
    }
}

/// Why an `npm install -g` failed, from its error output.
pub fn npm_failure_message(stderr: &str) -> (r: String)
    ensures
        r@ == npm_failure_spec(stderr@),
{
    let chars = chars_of(stderr);
    let parts = crate::text::split_chars(&chars, 0, chars.len(), '\n');
    assert(chars@.subrange(0, chars@.len() as int) =~= chars@);
    proof { crate::text::lemma_split_nonempty(stderr@, '\n'); }
    let ghost pv = crate::text::views(parts@);
    let ghost lines = crate::detect::lines_of(stderr@);
    let count = if parts[parts.len() - 1].len() == 0 { parts.len() - 1 } else { parts.len() };
    assert(lines.len() == count);
    let mut i: usize = 0;
    while i < count
        invariant
            i <= count <= parts@.len(),
            pv == crate::text::views(parts@),
            pv == crate::text::split_on(stderr@, '\n'),
            lines == crate::detect::lines_of(stderr@),
            count == lines.len(),
            forall|j: int| 0 <= j < i ==> crate::text::trim(#[trigger] lines[j]).len() == 0,
        decreases count - i,
    {
        let p = &parts[i];
        let end = if p.len() > 0 && p[p.len() - 1] == '\r' { p.len() - 1 } else { p.len() };
        assert(lines[i as int] == p@.take(end as int)) by {
            assert(lines[i as int] == (if p@.len() > 0 && p@.last() == '\r' { p@.drop_last() } else { p@ }));
        }
        let (a, b) = crate::text::trim_bounds(p, 0, end);
        assert(p@.subrange(0, end as int) =~= p@.take(end as int));
        if a < b {
            let line = subvec(p, 0, end);
            proof {
                assert(line@ =~= lines[i as int]);
                let k = choose|k: int| 0 <= k < lines.len() && crate::text::trim(#[trigger] lines[k]).len() > 0
                    && forall|j: int| 0 <= j < k ==> crate::text::trim(#[trigger] lines[j]).len() == 0;
                if k < i {
                    assert(crate::text::trim(lines[k]).len() == 0);
                } else if k > i {
                    assert(crate::text::trim(lines[i as int]).len() == 0);
                }
            }
            return string_from_chars(&line);
        }
        i = i + 1;
    }
    String::from_str("npm 进程退出异常")
}

} // verus!

verus! {

/// What deleting a profile asks first: `web` cannot be deleted; a running
/// profile is stopped before it is deleted.
pub open spec fn delete_prompt_spec(name: Seq<char>, running: bool) -> Result<Seq<char>, Seq<char>> {
    if name == crate::state::DEFAULT_PROFILE@ {
        Err("`web` 是保留 profile，不能删除"@)
    } else if running {
        Ok("「"@ + name + "」正在运行，将先停止再删除该 profile。"@)
    } else {
        Ok("确定删除 profile「"@ + name + "」吗？"@)
    }
}

/// The confirmation asked before deleting profile `name` (`running`: its
/// card shows it running), or why it cannot be deleted.
pub fn delete_confirmation(name: &str, running: bool) -> (r: Result<String, String>)
    ensures
        match (r, delete_prompt_spec(name@, running)) {
            (Ok(a), Ok(b)) => a@ == b,
            (Err(a), Err(b)) => a@ == b,
            _ => false,
        },
{
    if crate::text::str_eq(name, crate::state::DEFAULT_PROFILE) {
        return Err(String::from_str("`web` 是保留 profile，不能删除"));
    }
    if running {
        let a = concat_str("「", name);
        Ok(concat_str(a.as_str(), "」正在运行，将先停止再删除该 profile。"))
    } else {
        let a = concat_str("确定删除 profile「", name);
        Ok(concat_str(a.as_str(), "」吗？"))
    }
}

/// How many entries are enabled.
pub open spec fn enabled_count(entries: Seq<crate::plugin_list::PluginEntry>) -> nat
    decreases entries.len(),
{
    if entries.len() == 0 {
        0
    } else {
        enabled_count(entries.drop_last()) + if entries.last().enabled { 1nat } else { 0nat }
    }
}

/// The heading of a profile's plugin panel: how many plugins are enabled.
pub fn plugin_panel_title(entries: &Vec<crate::plugin_list::PluginEntry>) -> (r: String)
    ensures
        r@ == "插件管理 · "@ + crate::text::decimal(enabled_count(entries@)) + " 个已启用"@,
{
    let mut n: usize = 0;
    let mut i: usize = 0;
    while i < entries.len()
        invariant
            i <= entries@.len(),
            n == enabled_count(entries@.take(i as int)),
            n <= i,
        decreases entries.len() - i,
    {
        proof {
            let t = entries@.take(i + 1);
            assert(t.drop_last() =~= entries@.take(i as int));
        }
        if entries[i].enabled {
            n = n + 1;
        }
        i = i + 1;
    }
    assert(entries@.take(entries@.len() as int) =~= entries@);
    let d = decimal_string(n as u64);
    let a = concat_str("插件管理 · ", d.as_str());
    concat_str(a.as_str(), " 个已启用")
}

/// The newest version listed for `plugin` (the last listing wins, as when
/// the list fills a map).
pub open spec fn latest_listed(outdated: Seq<(Seq<char>, Seq<char>)>, plugin: Seq<char>) -> Option<Seq<char>>
    decreases outdated.len(),
{
    if outdated.len() == 0 {
        None
    } else if outdated.last().0 == plugin {
        Some(outdated.last().1)
    } else {
        latest_listed(outdated.drop_last(), plugin)
    }
}

/// The "upgradable" badge of `plugin`: the latest version the outdated
/// query listed for it.
pub fn upgrade_badge(outdated: &Vec<(String, String)>, plugin: &str) -> (r: Option<String>)
    ensures
        crate::install::opt_string_view(r) == match latest_listed(crate::plugins::pair_views(outdated@), plugin@) {
            Some(v) => Some("可升级 ↑ "@ + v),
            None => None::<Seq<char>>,
        },
{
    let ghost pv = crate::plugins::pair_views(outdated@);
    let mut i = outdated.len();
    assert(pv.take(pv.len() as int) =~= pv);
    while i > 0
        invariant
            i <= outdated@.len(),
            pv == crate::plugins::pair_views(outdated@),
            latest_listed(pv, plugin@) == latest_listed(pv.take(i as int), plugin@),
        decreases i,
    {
        let t = &outdated[i - 1];
        proof {
            let s = pv.take(i as int);
            assert(s.last() == (t.0@, t.1@));
            assert(s.drop_last() =~= pv.take(i - 1));
        }
        if crate::text::str_eq(t.0.as_str(), plugin) {
            return Some(concat_str("可升级 ↑ ", t.1.as_str()));
        }
        i = i - 1;
    }
    None
}

/// The notice shown after switching a plugin on or off.
pub fn toggle_notice(plugin: &str, enabled: bool) -> (r: String)
    ensures
        r@ == "「"@ + plugin@ + "」已"@ + (if enabled { "启用"@ } else { "禁用"@ }),
{
    let a = concat_str("「", plugin);
    let b = concat_str(a.as_str(), "」已");
    concat_str(b.as_str(), if enabled { "启用" } else { "禁用" })
}

} // verus!
