//! The dsh kernel supervisor: launch parameters, the kernel state machine,
//! crash accounting with a bounded auto-restart, and readiness bookkeeping.
//!
//! Process handling itself (spawning, killing, reading pipes, probing ports)
//! is done by the caller; every decision the supervisor takes is made here,
//! from plain values (times are milliseconds on a monotonic clock).
use vstd::prelude::*;
use crate::text::{decimal_string, chars_of, lit, find_exec, trim_bounds, first_word_bounds, starts_with_at, string_from_chars, leading_digits_end, parse_digits};

verus! {

/// Crash-stop window: abnormal exits inside this window count together.
pub const CRASH_WINDOW_MS: u64 = 10000;
/// Abnormal exits inside the crash window that stop the auto-restart.
pub const MAX_CRASHES: usize = 3;
/// How long the dsh web server is given to accept connections.
pub const READY_TIMEOUT_MS: u64 = 60000;
/// Seconds shown for [`READY_TIMEOUT_MS`] in messages.
pub const READY_TIMEOUT_SECS: u64 = 60;

/// Kernel launch parameters.
#[derive(Debug)]
pub struct KernelConfig {
    /// Profile booted by the kernel.
    pub profile: String,
    /// `Some(p)`: try `p` first; `None`: pick a free port directly.
    pub port: Option<u16>,
    /// Working directory (dsh archives sessions by it).
    pub cwd: String,
    /// Extra `--patch` overlays.
    pub patches: Vec<String>,
    /// `DSH_HOME` override.
    pub home: Option<String>,
    /// Fail instead of drifting when the preferred port is taken.
    pub lock_port: bool,
}

/// Resolved dsh launcher.
#[derive(Debug)]
pub enum DshExec {
    /// `dsh.cmd` / `dsh.ps1` / `dsh.exe` shim found on a Windows `PATH`.
    WindowsCmd { shim: String },
    /// `dsh` script on a Unix `PATH`, with its resolved shebang interpreter.
    UnixSh { shim: String, interpreter: Option<Vec<String>> },
}

/// No dsh launcher could be resolved; the text says why when known.
#[derive(Debug)]
pub struct DshNotFound(pub String);

/// Message shown when no reason is known.
pub open spec fn dsh_not_found_default() -> Seq<char> {
    "未找到 dsh 可执行文件（dsh.cmd / dsh）"@
}

impl DshNotFound {
    /// The human-readable text of this error.
    pub fn message(&self) -> (m: String)
        ensures
            m@ == (if self.0@.len() == 0 { dsh_not_found_default() } else { self.0@ }),
    {
        if self.0.as_str().is_empty() {
            let m = String::from_str("未找到 dsh 可执行文件（dsh.cmd / dsh）");
            proof { reveal_strlit("未找到 dsh 可执行文件（dsh.cmd / dsh）"); }
            m
        } else {
            self.0.clone()
        }
    }
}

/// Kernel state machine.
#[derive(Debug)]
pub enum KernelState {
    /// Not running.
    Stopped,
    /// Spawned, waiting for the web server.
    Starting,
    /// Web server up at `url`.
    Ready { url: String, port: u16 },
    /// Auto-restart stopped, or a launch failed.
    Crashed { restarts: u32, last_error: String },
}

/// Status mirrored to the user interface.
#[derive(Debug)]
pub enum KernelStatus {
    Guide,
    Starting,
    Ready { url: String },
    Error { message: String },
    Stopped,
}

/// What the supervisor decided after a spontaneous child exit.
#[derive(Debug)]
pub enum ExitAction {
    /// Launch the kernel again, then report the outcome.
    Respawn,
    /// Too many exits inside the crash window: the kernel stays down.
    GiveUp,
}

/// A recorded exit at `t` no longer counts at `now`.
pub open spec fn is_stale(t: u64, now: u64) -> bool {
    now > t && now - t > CRASH_WINDOW_MS
}

/// Drop the leading exits that no longer count at `now`.
pub open spec fn prune_stale(times: Seq<u64>, now: u64) -> Seq<u64>
    decreases times.len(),
{
    if times.len() > 0 && is_stale(times[0], now) {
        prune_stale(times.drop_first(), now)
    } else {
        times
    }
}

/// The exit log after an exit at `now`.
pub open spec fn record_exit(times: Seq<u64>, now: u64) -> Seq<u64> {
    prune_stale(times, now).push(now)
}

/// Times listed in non-decreasing order.
pub open spec fn sorted_times(times: Seq<u64>) -> bool {
    forall|i: int, j: int| 0 <= i <= j < times.len() ==> times[i] <= times[j]
}

/// Message of the brake after `restarts` exits.
pub open spec fn give_up_message(restarts: u32, last: Seq<char>) -> Seq<char> {
    "dsh 内核在 10s 内异常退出 "@ + crate::text::decimal(restarts as nat) + " 次（最近退出状态: "@ + last
        + "），已停止自动重启"@
}

/// Message after a failed automatic restart.
pub open spec fn respawn_failed_message(err: Seq<char>) -> Seq<char> {
    "dsh 内核自动重启失败: "@ + err
}

/// Description used when no exit status is known.
pub open spec fn unknown_status() -> Seq<char> {
    "未知"@
}

/// Message of the readiness timeout.
pub open spec fn ready_timeout_message() -> Seq<char> {
    "dsh 内核 "@ + crate::text::decimal(READY_TIMEOUT_SECS as nat) + " 秒内未就绪，请查看日志"@
}

/// Log line written when a kernel is started.
pub open spec fn start_line(profile: Seq<char>, port: u16, cwd: Seq<char>) -> Seq<char> {
    "=== dsh kernel start: profile="@ + profile + ", port="@ + crate::text::decimal(port as nat) + ", cwd="@
        + cwd + " ==="@
}

/// Log line written when attaching to an external kernel.
pub open spec fn attach_line(url: Seq<char>) -> Seq<char> {
    "=== WhaleNest attached to existing dsh process at "@ + url + " (external kernel) ==="@
}

/// Log line written when detaching from an external kernel.
pub open spec fn detach_line() -> Seq<char> {
    "=== WhaleNest detached from external dsh kernel (kernel left running) ==="@
}

/// Log line written when the managed kernel is stopped.
pub open spec fn stopped_line() -> Seq<char> {
    "=== dsh kernel stopped ==="@
}

/// Error when no launcher is known at spawn time.
pub open spec fn no_launcher_message() -> Seq<char> {
    "未找到 dsh 可执行文件"@
}

/// Error when the locked preferred port is taken.
pub open spec fn port_locked_message(p: u16) -> Seq<char> {
    "端口 "@ + crate::text::decimal(p as nat) + " 已被占用（已锁定固定端口），请先释放该端口或关闭「固定端口」后重试"@
}

/// What to do after a profile was deleted.
#[derive(Debug, Clone, Copy, PartialEq, Eq, Structural)]
pub struct DeleteStep {
    /// Stop the kernel first: it was configured for the deleted profile.
    pub stop: bool,
    /// Report the kernel as stopped: it now points at `web`.
    pub emit_stopped: bool,
}

/// The kernel supervisor.
#[derive(Debug)]
pub struct Kernel {
    pub config: KernelConfig,
    pub state: KernelState,
    /// Rolling log file of this kernel.
    pub log_path: String,
    /// Authenticated web URL announced by the running kernel.
    pub auth_url: Option<String>,
    /// Resolved launcher, if any.
    pub launcher: Option<DshExec>,
    /// Why detection failed, for diagnostics.
    pub launcher_error: Option<String>,
    /// Port handed to dsh at the last spawn.
    pub current_port: Option<u16>,
    /// Attached to an externally running dsh.
    pub is_attached: bool,
    pub ready_emitted: bool,
    pub timeout_emitted: bool,
    /// Deadline of the readiness wait, in milliseconds.
    pub ready_deadline: Option<u64>,
    /// Times of the recent abnormal exits, oldest first.
    pub crash_times: Vec<u64>,
    pub restarts: u32,
    /// Description of the last exit status.
    pub last_exit_status: Option<String>,
}

} // verus!

verus! {

/// Spec of [`Kernel::remaining_ready_timeout`].
pub open spec fn remaining_ready_spec(k: &Kernel, now: u64) -> Option<u64> {
    if k.ready_emitted || k.timeout_emitted || !(k.state is Starting) {
        None
    } else {
        match k.ready_deadline {
            Some(d) => Some(if d > now { (d - now) as u64 } else { 0u64 }),
            None => None,
        }
    }
}

impl Kernel {
    /// A supervisor for `config`, logging to `log_path`, with the outcome of
    /// launcher detection.
    pub fn new(config: KernelConfig, log_path: String, detection: Result<DshExec, DshNotFound>) -> (k: Kernel)
        ensures
            k.config == config,
            k.log_path == log_path,
            k.state is Stopped,
            k.launcher is Some <==> detection is Ok,
            detection matches Ok(e) ==> k.launcher == Some(e),
            detection matches Err(e) ==> k.launcher_error matches Some(m)
                && m@ == (if e.0@.len() == 0 { dsh_not_found_default() } else { e.0@ }),
            detection is Ok ==> k.launcher_error is None,
            k.auth_url is None,
            k.current_port is None,
            !k.is_attached,
            !k.ready_emitted,
            !k.timeout_emitted,
            k.ready_deadline is None,
            k.crash_times@.len() == 0,
            k.restarts == 0,
            k.last_exit_status is None,
    {
        let (launcher, launcher_error) = match detection {
            Ok(e) => (Some(e), None),
            Err(e) => (None, Some(e.message())),
        };
        Kernel {
            config,
            state: KernelState::Stopped,
            log_path,
            auth_url: None,
            launcher,
            launcher_error,
            current_port: None,
            is_attached: false,
            ready_emitted: false,
            timeout_emitted: false,
            ready_deadline: None,
            crash_times: Vec::new(),
            restarts: 0,
            last_exit_status: None,
        }
    }

    /// Whether a launcher is known.
    pub fn dsh_available(&self) -> (b: bool)
        ensures
            b == self.launcher is Some,
    {
        self.launcher.is_some()
    }

    /// Take the outcome of a fresh launcher detection; true when one is available.
    pub fn redetect(&mut self, detection: Result<DshExec, DshNotFound>) -> (found: bool)
        ensures
            found == detection is Ok,
            detection matches Ok(e) ==> final(self).launcher == Some(e) && final(self).launcher_error is None,
            detection matches Err(e) ==> final(self).launcher is None && (final(self).launcher_error matches Some(m)
                && m@ == (if e.0@.len() == 0 { dsh_not_found_default() } else { e.0@ })),
            final(self).state == old(self).state,
            final(self).config == old(self).config,
            final(self).current_port == old(self).current_port,
            final(self).crash_times == old(self).crash_times,
    {
        match detection {
            Ok(e) => {
                self.launcher = Some(e);
                self.launcher_error = None;
                true
            },
            Err(e) => {
                self.launcher = None;
                self.launcher_error = Some(e.message());
                false
            },
        }
    }

    /// Attach to an already running dsh serving `url` on `port`; returns the
    /// line to append to the kernel log.
    pub fn attach_to_existing(&mut self, port: u16, url: String) -> (line: String)
        ensures
            final(self).is_attached,
            final(self).current_port == Some(port),
            final(self).state == (KernelState::Ready { url: url, port: port }),
            final(self).ready_emitted,
            !final(self).timeout_emitted,
            final(self).config == old(self).config,
            final(self).crash_times == old(self).crash_times,
            line@ == attach_line(url@),
    {
        let mut line = String::from_str("=== WhaleNest attached to existing dsh process at ");
        line.append(url.as_str());
        line.append(" (external kernel) ===");
        proof {
            reveal_strlit("=== WhaleNest attached to existing dsh process at ");
            reveal_strlit(" (external kernel) ===");
        }
        self.is_attached = true;
        self.current_port = Some(port);
        self.state = KernelState::Ready { url, port };
        self.ready_emitted = true;
        self.timeout_emitted = false;
        line
    }

    /// Remaining readiness wait while starting, in milliseconds.
    pub fn remaining_ready_timeout(&self, now: u64) -> (r: Option<u64>)
        ensures
            r == remaining_ready_spec(self, now),
    {
        if self.ready_emitted || self.timeout_emitted || !matches!(self.state, KernelState::Starting) {
            return None;
        }
        match self.ready_deadline {
            Some(d) => Some(d.saturating_sub(now)),
            None => None,
        }
    }
}

} // verus!

verus! {

/// Spec of the port chosen by [`Kernel::spawn`].
pub open spec fn spawn_port_spec(k: &Kernel, preferred_free: bool, free_port: u16) -> Result<u16, Seq<char>> {
    if k.launcher is None {
        Err(no_launcher_message())
    } else {
        match k.config.port {
            Some(p) => if p == 0 {
                Ok(free_port)
            } else if preferred_free {
                Ok(p)
            } else if k.config.lock_port {
                Err(port_locked_message(p))
            } else {
                Ok(free_port)
            },
            None => Ok(free_port),
        }
    }
}

impl Kernel {
    /// Record the description of the status the child exited with.
    pub fn record_exit_status(&mut self, status: String)
        ensures
            final(self).last_exit_status == Some(status),
            final(self).state == old(self).state,
            final(self).crash_times == old(self).crash_times,
            final(self).restarts == old(self).restarts,
            final(self).config == old(self).config,
    {
        self.last_exit_status = Some(status);
    }

    /// Choose the port for a launch. `preferred_free` says whether the
    /// configured port could be bound just now; `free_port` is a port the
    /// system handed out. A configured port of 0 means automatic, as no
    /// port does. On success the port is recorded as current.
    pub fn spawn(&mut self, preferred_free: bool, free_port: u16) -> (r: Result<u16, String>)
        ensures
            match (r, spawn_port_spec(old(self), preferred_free, free_port)) {
                (Ok(p), Ok(q)) => p == q && final(self).current_port == Some(p),
                (Err(e), Err(m)) => e@ == m && final(self).current_port == old(self).current_port,
                _ => false,
            },
            final(self).state == old(self).state,
            final(self).config == old(self).config,
            final(self).crash_times == old(self).crash_times,
            final(self).restarts == old(self).restarts,
            final(self).ready_emitted == old(self).ready_emitted,
            final(self).timeout_emitted == old(self).timeout_emitted,
            final(self).ready_deadline == old(self).ready_deadline,
            final(self).last_exit_status == old(self).last_exit_status,
            final(self).is_attached == old(self).is_attached,
            final(self).auth_url == old(self).auth_url,
            final(self).launcher == old(self).launcher,
            final(self).launcher_error == old(self).launcher_error,
            final(self).log_path == old(self).log_path,
    {
        if self.launcher.is_none() {
            let m = String::from_str("未找到 dsh 可执行文件");
            proof { reveal_strlit("未找到 dsh 可执行文件"); }
            return Err(m);
        }
        let port = match self.config.port {
            Some(p) => {
                if p == 0 {
                    free_port
                } else if preferred_free {
                    p
                } else if self.config.lock_port {
                    let mut m = String::from_str("端口 ");
                    let d = decimal_string(p as u64);
                    m.append(d.as_str());
                    m.append(" 已被占用（已锁定固定端口），请先释放该端口或关闭「固定端口」后重试");
                    proof {
                        reveal_strlit("端口 ");
                        reveal_strlit(" 已被占用（已锁定固定端口），请先释放该端口或关闭「固定端口」后重试");
                    }
                    return Err(m);
                } else {
                    free_port
                }
            },
            None => free_port,
        };
        self.current_port = Some(port);
        Ok(port)
    }

    /// The launch on `port` succeeded at `now`: the kernel is starting and
    /// the readiness wait begins. Returns the line to append to the log.
    pub fn started(&mut self, port: u16, now: u64) -> (line: String)
        ensures
            final(self).state is Starting,
            final(self).current_port == Some(port),
            final(self).auth_url is None,
            !final(self).ready_emitted,
            !final(self).timeout_emitted,
            final(self).ready_deadline == Some(if now <= u64::MAX - READY_TIMEOUT_MS { (now + READY_TIMEOUT_MS) as u64 } else { u64::MAX }),
            final(self).config == old(self).config,
            final(self).crash_times == old(self).crash_times,
            final(self).restarts == old(self).restarts,
            final(self).last_exit_status == old(self).last_exit_status,
            final(self).is_attached == old(self).is_attached,
            line@ == start_line(old(self).config.profile@, port, old(self).config.cwd@),
    {
        let mut line = String::from_str("=== dsh kernel start: profile=");
        line.append(self.config.profile.as_str());
        line.append(", port=");
        let d = decimal_string(port as u64);
        line.append(d.as_str());
        line.append(", cwd=");
        line.append(self.config.cwd.as_str());
        line.append(" ===");
        proof {
            reveal_strlit("=== dsh kernel start: profile=");
            reveal_strlit(", port=");
            reveal_strlit(", cwd=");
            reveal_strlit(" ===");
        }
        self.auth_url = None;
        self.current_port = Some(port);
        self.state = KernelState::Starting;
        self.ready_emitted = false;
        self.timeout_emitted = false;
        self.ready_deadline = Some(now.saturating_add(READY_TIMEOUT_MS));
        line
    }

    /// Stop the kernel. Returns whether the child process tree must be
    /// killed (false when attached to an external kernel, which is left
    /// running) and the line to append to the log. No port is current
    /// afterwards.
    pub fn kill(&mut self) -> (r: (bool, String))
        ensures
            final(self).state is Stopped,
            r.0 == !old(self).is_attached,
            r.1@ == (if old(self).is_attached { detach_line() } else { stopped_line() }),
            final(self).config == old(self).config,
            final(self).crash_times == old(self).crash_times,
            final(self).current_port is None,
            final(self).is_attached == old(self).is_attached,
    {
        self.state = KernelState::Stopped;
        self.current_port = None;
        if self.is_attached {
            let l = String::from_str("=== WhaleNest detached from external dsh kernel (kernel left running) ===");
            proof { reveal_strlit("=== WhaleNest detached from external dsh kernel (kernel left running) ==="); }
            (false, l)
        } else {
            let l = String::from_str("=== dsh kernel stopped ===");
            proof { reveal_strlit("=== dsh kernel stopped ==="); }
            (true, l)
        }
    }
}

} // verus!

verus! {

impl Kernel {
    /// Crash accounting after a spontaneous child exit at `now`: exits older
    /// than the crash window are forgotten, this one is counted, and the
    /// brake engages once [`MAX_CRASHES`] exits fall inside the window.
    /// On [`ExitAction::Respawn`] the caller launches again and reports
    /// back through [`Kernel::started`] or [`Kernel::respawn_failed`].
    pub fn on_child_exit(&mut self, now: u64) -> (action: ExitAction)
        ensures
            final(self).crash_times@ == record_exit(old(self).crash_times@, now),
            final(self).restarts == final(self).crash_times@.len() as u32,
            (action is GiveUp) <==> final(self).restarts >= MAX_CRASHES as u32,
            action is GiveUp ==> final(self).state == (KernelState::Crashed {
                restarts: final(self).restarts,
                last_error: final(self).state->last_error,
            }) && final(self).state->last_error@ == give_up_message(
                final(self).restarts,
                match old(self).last_exit_status { Some(s) => s@, None => unknown_status() },
            ),
            action is Respawn ==> final(self).state == old(self).state,
            final(self).config == old(self).config,
            final(self).last_exit_status == old(self).last_exit_status,
            final(self).current_port == old(self).current_port,
            final(self).launcher == old(self).launcher,
    {
        while self.crash_times.len() > 0 && now > self.crash_times[0] && now - self.crash_times[0] > CRASH_WINDOW_MS
            invariant
                prune_stale(self.crash_times@, now) == prune_stale(old(self).crash_times@, now),
                self.config == old(self).config,
                self.state == old(self).state,
                self.last_exit_status == old(self).last_exit_status,
                self.current_port == old(self).current_port,
                self.launcher == old(self).launcher,
            decreases self.crash_times.len(),
        {
            let ghost before = self.crash_times@;
            self.crash_times.remove(0);
            assert(self.crash_times@ == before.drop_first());
        }
        self.crash_times.push(now);
        #[verifier::truncate]
        let n = self.crash_times.len() as u32;
        self.restarts = n;
        if self.restarts >= MAX_CRASHES as u32 {
            let mut msg = String::from_str("dsh 内核在 10s 内异常退出 ");
            let d = decimal_string(self.restarts as u64);
            msg.append(d.as_str());
            msg.append(" 次（最近退出状态: ");
            match &self.last_exit_status {
                Some(s) => msg.append(s.as_str()),
                None => msg.append("未知"),
            }
            msg.append("），已停止自动重启");
            proof {
                reveal_strlit("dsh 内核在 10s 内异常退出 ");
                reveal_strlit(" 次（最近退出状态: ");
                reveal_strlit("未知");
                reveal_strlit("），已停止自动重启");
            }
            self.state = KernelState::Crashed { restarts: self.restarts, last_error: msg };
            ExitAction::GiveUp
        } else {
            ExitAction::Respawn
        }
    }

    /// The automatic restart failed with `err`: the kernel stays down.
    pub fn respawn_failed(&mut self, err: &str)
        ensures
            final(self).state == (KernelState::Crashed {
                restarts: old(self).restarts,
                last_error: final(self).state->last_error,
            }),
            final(self).state->last_error@ == respawn_failed_message(err@),
            final(self).crash_times == old(self).crash_times,
            final(self).restarts == old(self).restarts,
            final(self).config == old(self).config,
    {
        let mut msg = String::from_str("dsh 内核自动重启失败: ");
        msg.append(err);
        proof { reveal_strlit("dsh 内核自动重启失败: "); }
        self.state = KernelState::Crashed { restarts: self.restarts, last_error: msg };
    }
}

/// Law: exits are forgotten oldest first. When the recorded exit times are
/// in order and not later than `now`, pruning keeps exactly the exits that
/// still count at `now`: the dropped ones are a prefix of stale exits and
/// every kept one lies inside the crash window.
pub proof fn law_prune_keeps_exactly_the_recent_exits(times: Seq<u64>, now: u64)
    requires
        sorted_times(times),
        forall|i: int| 0 <= i < times.len() ==> times[i] <= now,
    ensures
        prune_stale(times, now).len() <= times.len(),
        prune_stale(times, now) == times.skip(times.len() - prune_stale(times, now).len()),
        forall|i: int| 0 <= i < times.len() - prune_stale(times, now).len() ==> is_stale(times[i], now),
        forall|j: int| 0 <= j < prune_stale(times, now).len() ==> !is_stale(#[trigger] prune_stale(times, now)[j], now),
    decreases times.len(),
{
    if times.len() > 0 && is_stale(times[0], now) {
        let rest = times.drop_first();
        assert(sorted_times(rest));
        law_prune_keeps_exactly_the_recent_exits(rest, now);
        let m = prune_stale(rest, now).len();
        assert(m <= rest.len());
        assert(times.skip(times.len() - m) =~= rest.skip(rest.len() - m)) by {
            assert forall|i: int| 0 <= i < m implies #[trigger] times.skip(times.len() - m)[i] == rest.skip(rest.len() - m)[i] by {
                assert(times.skip(times.len() - m)[i] == times[times.len() - m + i]);
                assert(rest.skip(rest.len() - m)[i] == rest[rest.len() - m + i]);
                assert(times[times.len() - m + i] == rest[rest.len() - m + i]);
            }
        }
        assert forall|i: int| 0 <= i < times.len() - prune_stale(times, now).len() implies is_stale(times[i], now) by {
            if i > 0 {
                assert(times[i] == rest[i - 1]);
            }
        }
    } else {
        assert(times.skip(0) == times);
        assert forall|j: int| 0 <= j < times.len() implies !is_stale(#[trigger] times[j], now) by {
            assert(times[0] <= times[j]);
        }
    }
}

/// Law: recording exits in time order keeps the exit log in time order.
pub proof fn law_exit_log_stays_sorted(times: Seq<u64>, now: u64)
    requires
        sorted_times(times),
        forall|i: int| 0 <= i < times.len() ==> times[i] <= now,
    ensures
        sorted_times(record_exit(times, now)),
        forall|i: int| 0 <= i < record_exit(times, now).len() ==> record_exit(times, now)[i] <= now,
{
    law_prune_keeps_exactly_the_recent_exits(times, now);
    let p = prune_stale(times, now);
    let k = times.len() - p.len();
    assert(p == times.skip(k));
    assert(0 <= k <= times.len());
    assert forall|i: int, j: int| 0 <= i <= j < p.len() implies p[i] <= p[j] by {
        assert(p[i] == times[k + i]);
        assert(p[j] == times[k + j]);
    }
    assert forall|i: int| 0 <= i < p.len() implies p[i] <= now by {
        assert(p[i] == times[k + i]);
    }
}

/// Port choice at a launch, in terms of the configuration: with a
/// launcher, a free configured port is used; a taken one is left for the
/// free port unless the port is locked, and only a locked, taken port (or a
/// missing launcher) refuses the launch. No port or port 0 means the free
/// port.
pub proof fn law_launch_port_choice(k: &Kernel, preferred_free: bool, free_port: u16)
    ensures
        k.launcher is None ==> spawn_port_spec(k, preferred_free, free_port) is Err,
        k.launcher is Some && k.config.port is Some && k.config.port->Some_0 != 0 && preferred_free
            ==> spawn_port_spec(k, preferred_free, free_port) == Ok::<u16, Seq<char>>(k.config.port->Some_0),
        k.launcher is Some && k.config.port is Some && k.config.port->Some_0 != 0 && !preferred_free && !k.config.lock_port
            ==> spawn_port_spec(k, preferred_free, free_port) == Ok::<u16, Seq<char>>(free_port),
        k.launcher is Some && (k.config.port is None || k.config.port == Some(0u16))
            ==> spawn_port_spec(k, preferred_free, free_port) == Ok::<u16, Seq<char>>(free_port),
        spawn_port_spec(k, preferred_free, free_port) is Err ==> k.launcher is None
            || (k.config.lock_port && !preferred_free && k.config.port is Some && k.config.port->Some_0 != 0),
{
}

/// Crash accounting forgets exactly the exits more than ten seconds old:
/// after an exit at `now`, the log is the earlier exits of the last ten
/// seconds followed by `now`, and every exit older than that is dropped. So
/// three exits an hour apart count as one, and three within ten seconds as
/// three.
pub proof fn law_only_exits_of_the_last_ten_seconds_count(times: Seq<u64>, now: u64)
    requires
        sorted_times(times),
        forall|i: int| 0 <= i < times.len() ==> times[i] <= now,
    ensures
        exists|k: int| 0 <= k <= times.len()
            && record_exit(times, now) == times.skip(k).push(now)
            && (forall|i: int| 0 <= i < k ==> now - times[i] > 10000)
            && (forall|i: int| k <= i < times.len() ==> now - times[i] <= 10000),
        forall|j: int| 0 <= j < record_exit(times, now).len() ==> now - #[trigger] record_exit(times, now)[j] <= 10000,
{
    law_prune_keeps_exactly_the_recent_exits(times, now);
    let p = prune_stale(times, now);
    let k = times.len() - p.len();
    assert forall|i: int| k <= i < times.len() implies now - times[i] <= 10000 by {
        assert(p[i - k] == times[i]);
        assert(!is_stale(p[i - k], now));
    }
    assert forall|i: int| 0 <= i < k implies now - times[i] > 10000 by {
        assert(is_stale(times[i], now));
    }
    assert forall|j: int| 0 <= j < record_exit(times, now).len() implies now - #[trigger] record_exit(times, now)[j] <= 10000 by {
        if j < p.len() {
            assert(record_exit(times, now)[j] == p[j]);
            assert(p[j] == times[k + j]);
        }
    }
}

/// Law: three abnormal exits inside one crash window stop the automatic
/// restart, whatever came before them.
pub proof fn law_three_exits_in_window_trip_the_brake(times: Seq<u64>, t1: u64, t2: u64, t3: u64)
    requires
        sorted_times(times),
        forall|i: int| 0 <= i < times.len() ==> times[i] <= t1,
        t1 <= t2 <= t3,
        t3 - t1 <= CRASH_WINDOW_MS,
    ensures
        record_exit(record_exit(record_exit(times, t1), t2), t3).len() >= MAX_CRASHES,
{
    let a = record_exit(times, t1);
    law_exit_log_stays_sorted(times, t1);
    assert(a.last() == t1);
    let b = record_exit(a, t2);
    law_exit_log_stays_sorted(a, t2);
    law_prune_keeps_exactly_the_recent_exits(a, t2);
    // t1 still counts at t2, so it survives pruning
    assert(!is_stale(a[a.len() - 1], t2));
    assert(prune_stale(a, t2).len() >= 1);
    assert(b.len() >= 2);
    law_prune_keeps_exactly_the_recent_exits(b, t3);
    let pb = prune_stale(b, t3);
    let kb = b.len() - pb.len();
    // the last two entries of b are t1 and t2, both inside the window at t3
    assert(b[b.len() - 1] == t2);
    let pa = prune_stale(a, t2);
    assert(pa == a.skip(a.len() - pa.len()));
    assert(pa.len() <= a.len());
    assert(pa[pa.len() - 1] == a[a.len() - pa.len() + pa.len() - 1]);
    assert(pa[pa.len() - 1] == a[a.len() - 1]);
    assert(pa[pa.len() - 1] == t1);
    assert(b[b.len() - 2] == t1);
    assert(!is_stale(b[b.len() - 2], t3));
    if kb > b.len() - 2 {
        assert(is_stale(b[b.len() - 2], t3));
    }
    assert(pb.len() >= 2);
}

/// Law: an exit with no other exit inside the window before it is
/// restarted.
pub proof fn law_lone_exit_is_restarted(times: Seq<u64>, now: u64)
    requires
        forall|i: int| 0 <= i < times.len() ==> is_stale(times[i], now),
    ensures
        record_exit(times, now).len() == 1,
    decreases times.len(),
{
    if times.len() > 0 {
        law_lone_exit_is_restarted(times.drop_first(), now);
    }
}

} // verus!

verus! {

/// Outcome of a successful readiness probe.
#[derive(Debug)]
pub enum ReadyStep {
    /// Nothing to announce yet (stale probe, or the authenticated URL is
    /// still expected).
    Wait,
    /// The kernel is ready at `url`; `notify` asks for a desktop
    /// notification (only after a restart, not on the first launch).
    Ready { url: String, notify: bool },
}

impl Kernel {
    /// Port to probe and time left, while a readiness wait is running.
    pub fn readiness_target(&self, now: u64) -> (r: Option<(u16, u64)>)
        ensures
            r == (match (self.current_port, remaining_ready_spec(self, now)) {
                (Some(p), Some(t)) => Some((p, t)),
                _ => None,
            }),
    {
        let port = match self.current_port {
            Some(p) => p,
            None => return None,
        };
        match self.remaining_ready_timeout(now) {
            Some(t) => Some((port, t)),
            None => None,
        }
    }

    /// The web server on `port` accepted a connection at `now`. The kernel
    /// becomes ready at its authenticated URL when one was announced, or at
    /// `base_url` once the readiness wait has run out.
    pub fn probe_succeeded(&mut self, port: u16, base_url: String, now: u64) -> (step: ReadyStep)
        ensures
            ({
                let stale = old(self).ready_emitted || old(self).current_port != Some(port);
                let waiting = old(self).auth_url is None && (remaining_ready_spec(old(self), now) matches Some(d) && d != 0);
                if stale || waiting {
                    step is Wait && *final(self) == *old(self)
                } else {
                    let url = match old(self).auth_url { Some(u) => u, None => base_url };
                    &&& step == (ReadyStep::Ready { url: url, notify: old(self).last_exit_status is Some })
                    &&& final(self).state == (KernelState::Ready { url: url, port: port })
                    &&& final(self).ready_emitted
                    &&& final(self).timeout_emitted == old(self).timeout_emitted
                    &&& final(self).current_port == old(self).current_port
                    &&& final(self).auth_url == old(self).auth_url
                    &&& final(self).config == old(self).config
                    &&& final(self).crash_times == old(self).crash_times
                    &&& final(self).restarts == old(self).restarts
                    &&& final(self).last_exit_status == old(self).last_exit_status
                }
            }),
    {
        if self.ready_emitted {
            return ReadyStep::Wait;
        }
        match self.current_port {
            Some(p) => if p != port {
                return ReadyStep::Wait;
            },
            None => return ReadyStep::Wait,
        }
        let url = match &self.auth_url {
            Some(u) => u.clone(),
            None => {
                match self.remaining_ready_timeout(now) {
                    Some(d) => if d != 0 {
                        return ReadyStep::Wait;
                    },
                    None => {},
                }
                base_url
            },
        };
        self.state = KernelState::Ready { url: url.clone(), port };
        self.ready_emitted = true;
        ReadyStep::Ready { url, notify: self.last_exit_status.is_some() }
    }

    /// A readiness probe of `port` gave up at `now`. Once the deadline has
    /// passed (and nothing was announced yet) the launch is reported as
    /// failed; the returned message is what to show.
    pub fn probe_timed_out(&mut self, port: u16, now: u64) -> (r: Option<String>)
        ensures
            ({
                let ignore = old(self).ready_emitted || old(self).timeout_emitted
                    || old(self).current_port != Some(port)
                    || (match old(self).ready_deadline { Some(d) => now < d, None => true });
                if ignore {
                    r is None && *final(self) == *old(self)
                } else {
                    &&& r matches Some(m) && m@ == ready_timeout_message()
                    &&& final(self).timeout_emitted
                    &&& final(self).state == (KernelState::Crashed { restarts: 0, last_error: r->0 })
                    &&& final(self).ready_emitted == old(self).ready_emitted
                    &&& final(self).current_port == old(self).current_port
                    &&& final(self).config == old(self).config
                    &&& final(self).crash_times == old(self).crash_times
                    &&& final(self).restarts == old(self).restarts
                }
            }),
    {
        if self.ready_emitted || self.timeout_emitted {
            return None;
        }
        match self.current_port {
            Some(p) => if p != port {
                return None;
            },
            None => return None,
        }
        match self.ready_deadline {
            Some(d) => if now < d {
                return None;
            },
            None => return None,
        }
        let mut msg = String::from_str("dsh 内核 ");
        let d = decimal_string(READY_TIMEOUT_SECS);
        msg.append(d.as_str());
        msg.append(" 秒内未就绪，请查看日志");
        proof {
            reveal_strlit("dsh 内核 ");
            reveal_strlit(" 秒内未就绪，请查看日志");
        }
        self.timeout_emitted = true;
        self.state = KernelState::Crashed { restarts: 0, last_error: msg.clone() };
        Some(msg)
    }

    /// Record the authenticated URL announced by the running kernel.
    pub fn set_auth_url(&mut self, url: String)
        ensures
            final(self).auth_url == Some(url),
            final(self).state == old(self).state,
            final(self).config == old(self).config,
            final(self).current_port == old(self).current_port,
            final(self).ready_emitted == old(self).ready_emitted,
            final(self).timeout_emitted == old(self).timeout_emitted,
            final(self).crash_times == old(self).crash_times,
    {
        self.auth_url = Some(url);
    }

    /// The status a kernel in this state shows.
    pub open spec fn status_spec(&self) -> KernelStatus {
        if self.launcher is None {
            KernelStatus::Guide
        } else {
            match self.state {
                KernelState::Ready { url, .. } => KernelStatus::Ready { url: url },
                KernelState::Crashed { last_error, .. } => KernelStatus::Error { message: last_error },
                _ => KernelStatus::Starting,
            }
        }
    }

    /// Status shown to the user for the current kernel state.
    pub fn status(&self) -> (s: KernelStatus)
        ensures
            s == self.status_spec(),
    {
        if self.launcher.is_none() {
            return KernelStatus::Guide;
        }
        match &self.state {
            KernelState::Ready { url, .. } => KernelStatus::Ready { url: url.clone() },
            KernelState::Crashed { last_error, .. } => KernelStatus::Error { message: last_error.clone() },
            _ => KernelStatus::Starting,
        }
    }
}

} // verus!

verus! {

/// The authenticated URL of a `dsh web: <url>` startup line: the first word
/// after the marker, when it is an http(s) URL.
pub open spec fn dsh_web_url(line: Seq<char>) -> Option<Seq<char>> {
    match crate::text::find(line, "dsh web:"@) {
        None => None,
        Some(i) => match crate::text::first_word(crate::text::trim(line.skip(i + 8))) {
            None => None,
            Some(w) => if crate::text::starts_with(w, "http://"@) || crate::text::starts_with(w, "https://"@) {
                Some(w)
            } else {
                None
            },
        },
    }
}

/// Pull the authenticated dsh web URL out of a `dsh web: http://…?token=…`
/// startup line; any other line (and a trailing LAN suffix) is ignored.
pub fn extract_dsh_web_url(line: &str) -> (r: Option<String>)
    ensures
        match (r, dsh_web_url(line@)) {
            (Some(u), Some(w)) => u@ == w,
            (None, None) => true,
            _ => false,
        },
{
    let s = chars_of(line);
    let marker = lit("dsh web:");
    proof { reveal_strlit("dsh web:"); }
    let i = match find_exec(&s, &marker) {
        Some(i) => i,
        None => return None,
    };
    let n = s.len();
    assert(i + marker@.len() <= n);
    let start = i + marker.len();
    let (a, b) = trim_bounds(&s, start, s.len());
    assert(s@.subrange(start as int, s@.len() as int) =~= s@.skip(start as int));
    let (wa, wb) = match first_word_bounds(&s, a, b) {
        Some(r) => r,
        None => return None,
    };
    let http = lit("http://");
    let https = lit("https://");
    proof {
        reveal_strlit("http://");
        reveal_strlit("https://");
    }
    let ghost w = s@.subrange(wa as int, wb as int);
    let mut word: Vec<char> = Vec::new();
    let mut k = wa;
    while k < wb
        invariant
            wa <= k <= wb <= s@.len(),
            word@ == s@.subrange(wa as int, k as int),
        decreases wb - k,
    {
        word.push(s[k]);
        k = k + 1;
    }
    assert(word@.skip(0) =~= word@);
    assert(word@ == w);
    if starts_with_at(&word, 0, &http) || starts_with_at(&word, 0, &https) {
        Some(string_from_chars(&word))
    } else {
        None
    }
}

/// Port written after `needle` in `line`, when it is a valid non-zero port.
pub open spec fn port_after(line: Seq<char>, needle: Seq<char>) -> Option<u16> {
    match crate::text::find(line, needle) {
        None => None,
        Some(i) => match crate::text::parse_bounded(crate::text::leading_digits(line.skip(i + needle.len())), 65535) {
            Some(v) => if v > 0 { Some(v as u16) } else { None },
            None => None,
        },
    }
}

/// Port announced in a printed URL line (`127.0.0.1:PORT` first, then `localhost:PORT`).
pub open spec fn url_line_port(line: Seq<char>) -> Option<u16> {
    match port_after(line, "127.0.0.1:"@) {
        Some(p) => Some(p),
        None => port_after(line, "localhost:"@),
    }
}

/// [`port_after`] on the characters of a line.
fn port_after_exec(s: &Vec<char>, needle: &Vec<char>) -> (r: Option<u16>)
    ensures
        r == port_after(s@, needle@),
{
    let i = match find_exec(s, needle) {
        Some(i) => i,
        None => return None,
    };
    let n = s.len();
    assert(i + needle@.len() <= n);
    let start = i + needle.len();
    let e = leading_digits_end(s, start);
    let r = parse_digits(s, start, e, 65535);
    assert(s@.subrange(start as int, e as int) == crate::text::leading_digits(s@.skip(i + needle@.len())));
    match r {
        Some(v) => if v > 0 {
            Some(v as u16)
        } else {
            None
        },
        None => None,
    }
}

impl Kernel {
    /// Parse the actual port from a printed URL line
    /// (`http://127.0.0.1:PORT` / `http://localhost:PORT`).
    pub fn parse_url_line(&self, line: &str) -> (r: Option<u16>)
        ensures
            r == url_line_port(line@),
    {
        let s = chars_of(line);
        let a = lit("127.0.0.1:");
        let b = lit("localhost:");
        proof {
            reveal_strlit("127.0.0.1:");
            reveal_strlit("localhost:");
        }
        match port_after_exec(&s, &a) {
            Some(p) => Some(p),
            None => port_after_exec(&s, &b),
        }
    }
}

} // verus!

verus! {

/// What the user interface receives for a status: a kind name, and the URL
/// or message the status carries.
#[derive(Debug)]
pub struct KernelEventPayload {
    pub status: String,
    pub url: Option<String>,
    pub message: Option<String>,
}

/// The kind name of a status.
pub open spec fn status_name(s: KernelStatus) -> Seq<char> {
    match s {
        KernelStatus::Guide => "guide"@,
        KernelStatus::Starting => "starting"@,
        KernelStatus::Ready { .. } => "ready"@,
        KernelStatus::Error { .. } => "error"@,
        KernelStatus::Stopped => "stopped"@,
    }
}

impl KernelStatus {
    /// The payload of this status: its kind name, with the URL of `Ready`
    /// and the message of `Error`.
    pub fn payload(&self) -> (p: KernelEventPayload)
        ensures
            p.status@ == status_name(*self),
            crate::install::opt_string_view(p.url) == match self {
                KernelStatus::Ready { url } => Some(url@),
                _ => None::<Seq<char>>,
            },
            crate::install::opt_string_view(p.message) == match self {
                KernelStatus::Error { message } => Some(message@),
                _ => None::<Seq<char>>,
            },
    {
        match self {
            KernelStatus::Guide => KernelEventPayload { status: String::from_str("guide"), url: None, message: None },
            KernelStatus::Starting => KernelEventPayload { status: String::from_str("starting"), url: None, message: None },
            KernelStatus::Ready { url } => KernelEventPayload { status: String::from_str("ready"), url: Some(url.clone()), message: None },
            KernelStatus::Error { message } => KernelEventPayload { status: String::from_str("error"), url: None, message: Some(message.clone()) },
            KernelStatus::Stopped => KernelEventPayload { status: String::from_str("stopped"), url: None, message: None },
        }
    }
}

/// What `format!("{:?}", s)` writes for a string: the text quoted, with
/// escapes.
pub uninterp spec fn debug_quoted(s: Seq<char>) -> Seq<char>;

/// `format!("{:?}", s)` for a string. The contract only names the outcome.
#[verifier::external_body]
fn debug_string(s: &str) -> (r: String)
    ensures
        r@ == debug_quoted(s@),
{
    format!("{:?}", s)
}

/// `{:?}` of an optional port.
pub open spec fn debug_port(p: Option<u16>) -> Seq<char> {
    match p {
        Some(v) => "Some("@ + crate::text::decimal(v as nat) + ")"@,
        None => "None"@,
    }
}

/// `{:?}` of a kernel state.
pub open spec fn debug_state(s: KernelState) -> Seq<char> {
    match s {
        KernelState::Stopped => "Stopped"@,
        KernelState::Starting => "Starting"@,
        KernelState::Ready { url, port } => "Ready { url: "@ + debug_quoted(url@) + ", port: "@
            + crate::text::decimal(port as nat) + " }"@,
        KernelState::Crashed { restarts, last_error } => "Crashed { restarts: "@ + crate::text::decimal(restarts as nat)
            + ", last_error: "@ + debug_quoted(last_error@) + " }"@,
    }
}

/// `{:?}` of an optional port.
fn debug_port_of(p: Option<u16>) -> (r: String)
    ensures
        r@ == debug_port(p),
{
    match p {
        Some(v) => {
            let d = decimal_string(v as u64);
            let a = crate::text::concat_str("Some(", d.as_str());
            crate::text::concat_str(a.as_str(), ")")
        },
        None => String::from_str("None"),
    }
}

/// `{:?}` of a kernel state.
fn debug_state_of(s: &KernelState) -> (r: String)
    ensures
        r@ == debug_state(*s),
{
    match s {
        KernelState::Stopped => String::from_str("Stopped"),
        KernelState::Starting => String::from_str("Starting"),
        KernelState::Ready { url, port } => {
            let mut r = String::from_str("Ready { url: ");
            let q = debug_string(url.as_str());
            r.append(q.as_str());
            r.append(", port: ");
            let d = decimal_string(*port as u64);
            r.append(d.as_str());
            r.append(" }");
            r
        },
        KernelState::Crashed { restarts, last_error } => {
            let mut r = String::from_str("Crashed { restarts: ");
            let d = decimal_string(*restarts as u64);
            r.append(d.as_str());
            r.append(", last_error: ");
            let q = debug_string(last_error.as_str());
            r.append(q.as_str());
            r.append(" }");
            r
        },
    }
}

/// First lines of the diagnostic report: launcher, detection detail, mode.
pub open spec fn diag_head(k: Kernel) -> Seq<char> {
    let dsh = match k.launcher {
        Some(DshExec::WindowsCmd { shim }) => shim@,
        Some(DshExec::UnixSh { shim, .. }) => shim@,
        None => "未找到"@,
    };
    "WhaleNest 诊断信息\n"@ + "====================\n"@
        + "dsh 可执行文件: "@ + dsh + "\n"@
        + (match k.launcher_error { Some(e) => "dsh 探测详情: "@ + e@ + "\n"@, None => Seq::empty() })
        + (if k.is_attached { "运行模式: 对接现有 dsh 进程 (外部内核 - 重启/退出保护生效)\n"@ } else { "运行模式: 独立托管内核 (子进程)\n"@ })
}

/// Middle lines of the diagnostic report: state, profile, directory, ports, log file.
pub open spec fn diag_body(k: Kernel) -> Seq<char> {
    "内核状态: "@ + debug_state(k.state) + "\n"@
        + "profile: "@ + k.config.profile@ + "\n"@
        + "工作目录: "@ + k.config.cwd@ + "\n"@
        + "配置端口: "@ + debug_port(k.config.port) + "\n"@
        + "当前端口: "@ + debug_port(k.current_port) + "\n"@
        + "日志文件: "@ + k.log_path@ + "\n"@
}

/// Last lines of the diagnostic report: node version, then the recent log.
pub open spec fn diag_tail(node_version: Option<Seq<char>>, log_tail: Seq<char>) -> Seq<char> {
    (match node_version { Some(v) => "node 版本: "@ + v + "\n"@, None => Seq::empty() })
        + "\n--- 最近日志 ---\n"@ + log_tail
}

/// The diagnostic report: launcher, detection detail, mode, state, profile,
/// directory, ports, log file, node version, then the recent log.
pub open spec fn diagnostics_spec(k: Kernel, node_version: Option<Seq<char>>, log_tail: Seq<char>) -> Seq<char> {
    diag_head(k) + diag_body(k) + diag_tail(node_version, log_tail)
}

/// `s` with `a` and `b` appended.
fn append2(s: &mut String, a: &str, b: &str)
    ensures
        final(s)@ == old(s)@ + a@ + b@,
{
    s.append(a);
    s.append(b);
}

impl Kernel {
    /// [`diag_head`].
    fn diagnostics_head(&self) -> (s: String)
        ensures
            s@ == diag_head(*self),
    {
        let mut s = String::from_str("WhaleNest 诊断信息\n");
        s.append("====================\n");
        s.append("dsh 可执行文件: ");
        match &self.launcher {
            Some(DshExec::WindowsCmd { shim }) => s.append(shim.as_str()),
            Some(DshExec::UnixSh { shim, .. }) => s.append(shim.as_str()),
            None => s.append("未找到"),
        }
        s.append("\n");
        match &self.launcher_error {
            Some(e) => {
                append2(&mut s, "dsh 探测详情: ", e.as_str());
                s.append("\n");
            },
            None => {},
        }
        if self.is_attached {
            s.append("运行模式: 对接现有 dsh 进程 (外部内核 - 重启/退出保护生效)\n");
        } else {
            s.append("运行模式: 独立托管内核 (子进程)\n");
        }
        assert(s@ =~= diag_head(*self));
        s
    }

    /// [`diag_body`].
    fn diagnostics_body(&self) -> (s: String)
        ensures
            s@ == diag_body(*self),
    {
        let mut s = String::from_str("内核状态: ");
        let st = debug_state_of(&self.state);
        append2(&mut s, st.as_str(), "\n");
        append2(&mut s, "profile: ", self.config.profile.as_str());
        append2(&mut s, "\n", "工作目录: ");
        append2(&mut s, self.config.cwd.as_str(), "\n");
        let cp = debug_port_of(self.config.port);
        append2(&mut s, "配置端口: ", cp.as_str());
        let cur = debug_port_of(self.current_port);
        append2(&mut s, "\n", "当前端口: ");
        append2(&mut s, cur.as_str(), "\n");
        append2(&mut s, "日志文件: ", self.log_path.as_str());
        s.append("\n");
        assert(s@ =~= diag_body(*self));
        s
    }

    /// The diagnostic report, given the version of the node next to the
    /// launcher (if one answered) and the tail of the log.
    pub fn diagnostics(&self, node_version: Option<&str>, log_tail: &str) -> (s: String)
        ensures
            s@ == diagnostics_spec(*self, match node_version { Some(v) => Some(v@), None => None }, log_tail@),
    {
        let mut s = self.diagnostics_head();
        let body = self.diagnostics_body();
        s.append(body.as_str());
        let ghost hb = s@;
        match node_version {
            Some(v) => {
                append2(&mut s, "node 版本: ", v);
                s.append("\n");
            },
            None => {},
        }
        append2(&mut s, "\n--- 最近日志 ---\n", log_tail);
        assert(s@ =~= diagnostics_spec(*self, match node_version { Some(v) => Some(v@), None => None }, log_tail@));
        s
    }
}

} // verus!

verus! {

/// Size at which the log rotates to `<name>.log.1`.
pub const MAX_LOG_SIZE: u64 = 1048576;

/// The rolling log: its path, whether it could be opened, and how many
/// bytes it holds. Opening, writing and renaming the file are the caller's.
#[derive(Debug)]
pub struct LogWriter {
    pub path: String,
    /// Whether the file is open for appending.
    pub has_file: bool,
    /// Bytes in the file.
    pub size: u64,
}

impl LogWriter {
    /// The log at `path`; `opened` is the length of the file when it could
    /// be opened for appending.
    pub fn open(path: String, opened: Option<u64>) -> (w: LogWriter)
        ensures
            w.path == path,
            w.has_file == opened is Some,
            w.size == match opened { Some(n) => n, None => 0 },
    {
        match opened {
            Some(n) => LogWriter { path, has_file: true, size: n },
            None => LogWriter { path, has_file: false, size: 0 },
        }
    }

    /// Whether writing a line of `line_len` bytes (plus its newline) must
    /// first rotate the log: it would grow past [`MAX_LOG_SIZE`].
    pub fn needs_rotation(&self, line_len: usize) -> (b: bool)
        ensures
            b == (self.size + line_len + 1 > MAX_LOG_SIZE),
    {
        (self.size as u128) + (line_len as u128) + 1 > MAX_LOG_SIZE as u128
    }

    /// After rotating: the log starts empty, open when it could be reopened.
    pub fn rotated(&mut self, reopened: bool)
        ensures
            final(self).path == old(self).path,
            final(self).has_file == reopened,
            final(self).size == 0,
    {
        self.has_file = reopened;
        self.size = 0;
    }

    /// After a line of `line_len` bytes was written with its newline; nothing
    /// is written without an open file.
    pub fn wrote(&mut self, line_len: usize)
        requires
            old(self).size + line_len + 1 <= u64::MAX,
        ensures
            final(self).path == old(self).path,
            final(self).has_file == old(self).has_file,
            final(self).size == (if old(self).has_file { old(self).size + line_len + 1 } else { old(self).size as int }),
    {
        if self.has_file {
            self.size = self.size + line_len as u64 + 1;
        }
    }
}

/// The log line for a line a kernel pipe printed: `[tag] line` with trailing
/// whitespace dropped; nothing for a blank line.
pub open spec fn log_line_spec(tag: Seq<char>, line: Seq<char>) -> Option<Seq<char>> {
    let t = crate::text::trim_end(line);
    if t.len() == 0 { None } else { Some("["@ + tag + "] "@ + t) }
}

/// The log line for `line` read from the pipe `tag` (`stdout` / `stderr`).
pub fn log_line(tag: &str, line: &str) -> (r: Option<String>)
    ensures
        crate::install::opt_string_view(r) == log_line_spec(tag@, line@),
{
    let chars = chars_of(line);
    let end = crate::text::trim_end_index(&chars, 0, chars.len());
    assert(chars@.subrange(0, chars@.len() as int) =~= chars@);
    if end == 0 {
        return None;
    }
    let t = crate::text::substring(&chars, 0, end);
    let a = crate::text::concat_str("[", tag);
    let b = crate::text::concat_str(a.as_str(), "] ");
    Some(crate::text::concat_str(b.as_str(), t.as_str()))
}

} // verus!

verus! {

impl Kernel {
    /// The rolling log file of this kernel.
    pub fn log_path(&self) -> (p: &str)
        ensures
            p@ == self.log_path@,
    {
        self.log_path.as_str()
    }

    /// The authenticated URL the running kernel announced, if any.
    pub fn auth_url(&self) -> (u: Option<String>)
        ensures
            u == self.auth_url,
    {
        match &self.auth_url {
            Some(s) => Some(s.clone()),
            None => None,
        }
    }

    /// Whether the kernel is configured for `profile`.
    pub fn is_profile(&self, profile: &str) -> (b: bool)
        ensures
            b == (self.config.profile@ == profile@),
    {
        crate::text::str_eq(self.config.profile.as_str(), profile)
    }

    /// Whether the kernel runs (or is starting) `profile`: configured for
    /// it and not stopped. A change to that profile's plugins then needs a
    /// restart.
    pub fn is_running_profile(&self, profile: &str) -> (b: bool)
        ensures
            b == (self.config.profile@ == profile@ && !(self.state is Stopped)),
    {
        self.is_profile(profile) && !matches!(self.state, KernelState::Stopped)
    }

    /// Point the kernel at `profile`, booted in `cwd`; nothing is launched.
    pub fn switch_profile(&mut self, profile: String, cwd: String)
        ensures
            final(self).config.profile == profile,
            final(self).config.cwd == cwd,
            final(self).config.port == old(self).config.port,
            final(self).config.patches == old(self).config.patches,
            final(self).config.home == old(self).config.home,
            final(self).config.lock_port == old(self).config.lock_port,
            final(self).state == old(self).state,
            final(self).current_port == old(self).current_port,
            final(self).crash_times == old(self).crash_times,
            final(self).restarts == old(self).restarts,
            final(self).is_attached == old(self).is_attached,
            final(self).auth_url == old(self).auth_url,
            final(self).launcher == old(self).launcher,
    {
        self.config.profile = profile;
        self.config.cwd = cwd;
    }

    /// A profile `name` was deleted; `was_active` says whether it was the
    /// active profile. When it was the active or the kernel's profile, the
    /// kernel falls back to `web` in `fallback_cwd` (nothing is launched) and
    /// a `Stopped` status is due; otherwise nothing changes. The kernel must
    /// be stopped first when it was configured for `name`.
    pub fn on_profile_deleted(&mut self, name: &str, was_active: bool, fallback_cwd: String) -> (r: DeleteStep)
        ensures
            r.stop == (old(self).config.profile@ == name@),
            r.emit_stopped == (was_active || old(self).config.profile@ == name@),
            (was_active || old(self).config.profile@ == name@) ==> final(self).config.profile@ == crate::state::DEFAULT_PROFILE@
                && final(self).config.cwd == fallback_cwd
                && final(self).config.port == old(self).config.port
                && final(self).config.patches == old(self).config.patches
                && final(self).config.home == old(self).config.home
                && final(self).config.lock_port == old(self).config.lock_port,
            !(was_active || old(self).config.profile@ == name@) ==> final(self).config == old(self).config,
            final(self).state == old(self).state,
            final(self).current_port == old(self).current_port,
            final(self).crash_times == old(self).crash_times,
            final(self).restarts == old(self).restarts,
            final(self).is_attached == old(self).is_attached,
            final(self).auth_url == old(self).auth_url,
            final(self).launcher == old(self).launcher,
    {
        let stop = self.is_profile(name);
        let affected = was_active || stop;
        if affected {
            let web = crate::state::default_profile();
            self.switch_profile(web, fallback_cwd);
        }
        DeleteStep { stop, emit_stopped: affected }
    }

    /// The port handed to dsh at the last launch.
    pub fn current_port(&self) -> (p: Option<u16>)
        ensures
            p == self.current_port,
    {
        self.current_port
    }
}

} // verus!
