//! Settings of the tray shell: one working directory and a short list of
//! recently used ones for quick switching.
use vstd::prelude::*;

verus! {

/// Default preferred port.
pub const DEFAULT_PORT: u16 = 3080;

/// Max entries kept in `recent_dirs`.
pub const MAX_RECENT_DIRS: usize = 6;

/// Persisted settings of the tray shell.
#[derive(Debug)]
pub struct AppState {
    /// Last working directory.
    pub cwd: String,
    /// Preferred port, default 3080.
    pub preferred_port: u16,
    /// Start with the desktop session.
    pub autostart: bool,
    /// Fail rather than move to another port when the preferred one is taken.
    pub lock_port: bool,
    /// Recently used working directories, most recent first.
    pub recent_dirs: Vec<String>,
    /// Whether the first-run wizard has been completed.
    pub initialized: bool,
}

/// `s` without the entries equal to `x`, in order.
pub open spec fn without(s: Seq<Seq<char>>, x: Seq<char>) -> Seq<Seq<char>>
    decreases s.len(),
{
    if s.len() == 0 {
        Seq::empty()
    } else if s.last() == x {
        without(s.drop_last(), x)
    } else {
        without(s.drop_last(), x).push(s.last())
    }
}

/// The recent list after `dir` is used: `dir` first, its older copies
/// dropped, at most [`MAX_RECENT_DIRS`] entries.
pub open spec fn recent_after(s: Seq<Seq<char>>, dir: Seq<char>) -> Seq<Seq<char>> {
    let full = seq![dir] + without(s, dir);
    if full.len() > MAX_RECENT_DIRS {
        full.take(MAX_RECENT_DIRS as int)
    } else {
        full
    }
}

/// No entry occurs twice.
pub open spec fn no_duplicates(s: Seq<Seq<char>>) -> bool {
    forall|i: int, j: int| 0 <= i < j < s.len() ==> s[i] != s[j]
}

/// The views of a list of strings.
pub open spec fn dir_views(v: Seq<String>) -> Seq<Seq<char>> {
    Seq::new(v.len(), |i: int| v[i]@)
}

impl AppState {
    /// Settings for a first run: `cwd` as the working directory (the home
    /// directory), port 3080, everything else off or empty.
    pub fn new(cwd: String) -> (s: AppState)
        ensures
            s.cwd == cwd,
            s.preferred_port == DEFAULT_PORT,
            !s.autostart,
            !s.lock_port,
            s.recent_dirs@.len() == 0,
            !s.initialized,
    {
        AppState {
            cwd,
            preferred_port: DEFAULT_PORT,
            autostart: false,
            lock_port: false,
            recent_dirs: Vec::new(),
            initialized: false,
        }
    }

    /// Records a working directory as recently used: dedupe, move to front,
    /// trim to [`MAX_RECENT_DIRS`]. Returns true exactly when the list
    /// changed.
    pub fn push_recent_dir(&mut self, dir: String) -> (changed: bool)
        ensures
            changed == (dir_views(final(self).recent_dirs@) != dir_views(old(self).recent_dirs@)),
            dir_views(final(self).recent_dirs@) == recent_after(dir_views(old(self).recent_dirs@), dir@),
            final(self).cwd == old(self).cwd,
            final(self).preferred_port == old(self).preferred_port,
            final(self).autostart == old(self).autostart,
            final(self).lock_port == old(self).lock_port,
            final(self).initialized == old(self).initialized,
    {
        let ghost old_views = dir_views(self.recent_dirs@);
        let mut out: Vec<String> = Vec::new();
        out.push(dir.clone());
        let mut i: usize = 0;
        while i < self.recent_dirs.len()
            invariant
                i <= self.recent_dirs@.len(),
                old_views == dir_views(self.recent_dirs@),
                dir_views(out@) == seq![dir@] + without(old_views.take(i as int), dir@),
            decreases self.recent_dirs.len() - i,
        {
            let d = &self.recent_dirs[i];
            proof {
                let t = old_views.take(i + 1);
                assert(t.drop_last() =~= old_views.take(i as int));
                assert(t.last() == d@);
            }
            let ghost before = out@;
            if *d != dir {
                out.push(d.clone());
                assert(dir_views(out@) =~= dir_views(before).push(d@));
            }
            i = i + 1;
        }
        assert(old_views.take(old_views.len() as int) =~= old_views);
        if out.len() > MAX_RECENT_DIRS {
            let ghost full = out@;
            out.truncate(MAX_RECENT_DIRS);
            assert(dir_views(out@) =~= dir_views(full).take(MAX_RECENT_DIRS as int));
        }
        let changed = !same_dirs(&out, &self.recent_dirs);
        self.recent_dirs = out;
        changed
    }
}

/// Whether two lists hold the same directories in the same order.
fn same_dirs(a: &Vec<String>, b: &Vec<String>) -> (r: bool)
    ensures
        r == (dir_views(a@) == dir_views(b@)),
{
    if a.len() != b.len() {
        assert(dir_views(a@).len() != dir_views(b@).len());
        return false;
    }
    let mut i: usize = 0;
    while i < a.len()
        invariant
            i <= a@.len(),
            a@.len() == b@.len(),
            forall|k: int| 0 <= k < i ==> #[trigger] a@[k]@ == b@[k]@,
        decreases a.len() - i,
    {
        if a[i] != b[i] {
            assert(dir_views(a@)[i as int] != dir_views(b@)[i as int]);
            return false;
        }
        i = i + 1;
    }
    assert(dir_views(a@) =~= dir_views(b@));
    true
}

/// What the tray shell's page asks for: kernel status (with its URL or
/// message) and the settings it shows.
#[derive(Debug)]
pub struct StateResponse {
    pub status: String,
    pub url: Option<String>,
    pub message: Option<String>,
    pub cwd: String,
    pub autostart: bool,
    pub lock_port: bool,
    pub initialized: bool,
}

impl AppState {
    /// Switches to the working directory `new_cwd`, recording it as recently
    /// used; an empty path changes nothing. Returns whether it switched.
    pub fn switch_cwd(&mut self, new_cwd: String) -> (switched: bool)
        ensures
            switched == (new_cwd@.len() > 0),
            switched ==> final(self).cwd == new_cwd
                && dir_views(final(self).recent_dirs@) == recent_after(dir_views(old(self).recent_dirs@), new_cwd@),
            !switched ==> final(self).cwd == old(self).cwd && final(self).recent_dirs@ == old(self).recent_dirs@,
            final(self).preferred_port == old(self).preferred_port,
            final(self).autostart == old(self).autostart,
            final(self).lock_port == old(self).lock_port,
            final(self).initialized == old(self).initialized,
    {
        if new_cwd.as_str().is_empty() {
            return false;
        }
        self.cwd = new_cwd.clone();
        let _ = self.push_recent_dir(new_cwd);
        true
    }

    /// The page's view of the kernel `k` and of these settings.
    pub fn get_state(&self, k: &crate::kernel::Kernel) -> (r: StateResponse)
        ensures
            r.status@ == crate::kernel::status_name(k.status_spec()),
            crate::install::opt_string_view(r.url) == match k.status_spec() {
                crate::kernel::KernelStatus::Ready { url } => Some(url@),
                _ => None::<Seq<char>>,
            },
            crate::install::opt_string_view(r.message) == match k.status_spec() {
                crate::kernel::KernelStatus::Error { message } => Some(message@),
                _ => None::<Seq<char>>,
            },
            r.cwd == self.cwd,
            r.autostart == self.autostart,
            r.lock_port == self.lock_port,
            r.initialized == self.initialized,
    {
        let p = k.status().payload();
        StateResponse {
            status: p.status,
            url: p.url,
            message: p.message,
            cwd: self.cwd.clone(),
            autostart: self.autostart,
            lock_port: self.lock_port,
            initialized: self.initialized,
        }
    }
}

/// `without` keeps only entries of `s` other than `x`.
proof fn lemma_without_members(s: Seq<Seq<char>>, x: Seq<char>)
    ensures
        forall|i: int| 0 <= i < without(s, x).len() ==> #[trigger] without(s, x)[i] != x && s.contains(without(s, x)[i]),
        without(s, x).len() <= s.len(),
    decreases s.len(),
{
    if s.len() > 0 {
        lemma_without_members(s.drop_last(), x);
        let w = without(s.drop_last(), x);
        assert forall|i: int| 0 <= i < without(s, x).len() implies #[trigger] without(s, x)[i] != x && s.contains(without(s, x)[i]) by {
            if i < w.len() {
                assert(without(s, x)[i] == w[i]);
                let k = choose|k: int| 0 <= k < s.drop_last().len() && s.drop_last()[k] == w[i];
                assert(s[k] == w[i]);
            } else {
                assert(without(s, x)[i] == s.last());
                assert(s[s.len() - 1] == s.last());
            }
        }
    }
}

/// `without` of a list without duplicates has none either.
proof fn lemma_without_unique(s: Seq<Seq<char>>, x: Seq<char>)
    requires
        no_duplicates(s),
    ensures
        no_duplicates(without(s, x)),
    decreases s.len(),
{
    if s.len() > 0 {
        let p = s.drop_last();
        assert(no_duplicates(p)) by {
            assert forall|i: int, j: int| 0 <= i < j < p.len() implies p[i] != p[j] by {
                assert(p[i] == s[i] && p[j] == s[j]);
            }
        }
        lemma_without_unique(p, x);
        lemma_without_members(p, x);
        if s.last() != x {
            let w = without(p, x);
            assert forall|i: int, j: int| 0 <= i < j < w.push(s.last()).len() implies w.push(s.last())[i] != w.push(s.last())[j] by {
                if j == w.len() {
                    assert(w.push(s.last())[i] == w[i]);
                    assert(p.contains(w[i]));
                    let k = choose|k: int| 0 <= k < p.len() && p[k] == w[i];
                    assert(s[k] == p[k]);
                    assert(s[s.len() - 1] == s.last());
                } else {
                    assert(w.push(s.last())[i] == w[i]);
                    assert(w.push(s.last())[j] == w[j]);
                }
            }
        }
    }
}

/// Removing `x` twice removes no more than once.
proof fn lemma_without_twice(s: Seq<Seq<char>>, x: Seq<char>)
    ensures
        without(without(s, x), x) == without(s, x),
    decreases s.len(),
{
    if s.len() > 0 {
        lemma_without_twice(s.drop_last(), x);
        let w = without(s.drop_last(), x);
        if s.last() != x {
            assert(w.push(s.last()).drop_last() =~= w);
            assert(w.push(s.last()).last() == s.last());
        }
    }
}

/// `without` of a prefix is a prefix of `without`.
proof fn lemma_without_take(s: Seq<Seq<char>>, x: Seq<char>, n: int)
    requires
        0 <= n <= s.len(),
    ensures
        without(s, x).len() >= without(s.take(n), x).len(),
        without(s, x).take(without(s.take(n), x).len() as int) == without(s.take(n), x),
    decreases s.len() - n,
{
    if n < s.len() {
        lemma_without_take(s, x, n + 1);
        let t = s.take(n + 1);
        assert(t.drop_last() =~= s.take(n));
        let a = without(s.take(n), x);
        let b = without(t, x);
        if t.last() != x {
            assert(b == a.push(t.last()));
            assert(without(s, x).take(a.len() as int) =~= b.take(a.len() as int));
            assert(b.take(a.len() as int) =~= a);
        } else {
            assert(b == a);
        }
    } else {
        assert(s.take(n) =~= s);
        assert(without(s, x).take(without(s, x).len() as int) =~= without(s, x));
    }
}

/// Using a directory puts it first, keeps at most [`MAX_RECENT_DIRS`]
/// entries, and keeps a list free of duplicates free of them.
pub proof fn law_recent_dir_goes_first(s: Seq<Seq<char>>, dir: Seq<char>)
    ensures
        recent_after(s, dir).len() >= 1,
        recent_after(s, dir)[0] == dir,
        recent_after(s, dir).len() <= MAX_RECENT_DIRS,
        no_duplicates(s) ==> no_duplicates(recent_after(s, dir)),
        forall|i: int| 1 <= i < recent_after(s, dir).len() ==> #[trigger] recent_after(s, dir)[i] != dir,
{
    lemma_without_members(s, dir);
    let w = without(s, dir);
    let full = seq![dir] + w;
    let r = recent_after(s, dir);
    assert(forall|i: int| 0 <= i < r.len() ==> #[trigger] r[i] == full[i]);
    assert forall|i: int| 1 <= i < r.len() implies #[trigger] r[i] != dir by {
        assert(r[i] == full[i]);
        assert(full[i] == w[i - 1]);
    }
    if no_duplicates(s) {
        lemma_without_unique(s, dir);
        assert forall|i: int, j: int| 0 <= i < j < r.len() implies r[i] != r[j] by {
            assert(r[i] == full[i] && r[j] == full[j]);
            if i > 0 {
                assert(full[i] == w[i - 1] && full[j] == w[j - 1]);
            } else {
                assert(full[j] == w[j - 1]);
            }
        }
    }
}

/// Using the same directory twice in a row leaves the list as using it once.
pub proof fn law_recent_dir_idempotent(s: Seq<Seq<char>>, dir: Seq<char>)
    ensures
        recent_after(recent_after(s, dir), dir) == recent_after(s, dir),
{
    let r = recent_after(s, dir);
    let w = without(s, dir);
    let full = seq![dir] + w;
    lemma_without_members(s, dir);
    // `r` is `dir` followed by a prefix of `w`.
    let k = (r.len() - 1) as int;
    assert(r.drop_first() =~= w.take(k));
    assert(r =~= seq![dir] + w.take(k));
    // Dropping `dir` from `r` leaves that prefix, which holds no `dir`.
    assert(without(r, dir) == w.take(k)) by {
        lemma_without_take(w, dir, k);
        lemma_without_twice(s, dir);
        assert(w.take(k) =~= without(w, dir).take(k)) by {
            assert(without(w, dir) == w);
        }
        lemma_without_first(seq![dir], w.take(k), dir);
        lemma_without_absent(w.take(k), dir);
    }
    assert(seq![dir] + w.take(k) =~= r);
}

/// `without` over a concatenation whose first part is all `x`.
proof fn lemma_without_first(a: Seq<Seq<char>>, b: Seq<Seq<char>>, x: Seq<char>)
    requires
        forall|i: int| 0 <= i < a.len() ==> a[i] == x,
    ensures
        without(a + b, x) == without(b, x),
    decreases b.len(),
{
    if b.len() == 0 {
        assert(a + b =~= a);
        lemma_without_all(a, x);
    } else {
        lemma_without_first(a, b.drop_last(), x);
        assert((a + b).drop_last() =~= a + b.drop_last());
        assert((a + b).last() == b.last());
    }
}

/// A list made only of `x` has nothing left without `x`.
proof fn lemma_without_all(a: Seq<Seq<char>>, x: Seq<char>)
    requires
        forall|i: int| 0 <= i < a.len() ==> a[i] == x,
    ensures
        without(a, x) == Seq::<Seq<char>>::empty(),
    decreases a.len(),
{
    if a.len() > 0 {
        lemma_without_all(a.drop_last(), x);
        assert(a[a.len() - 1] == a.last());
    }
}

/// A list without `x` is left as it is.
proof fn lemma_without_absent(a: Seq<Seq<char>>, x: Seq<char>)
    requires
        forall|i: int| 0 <= i < a.len() ==> a[i] != x,
    ensures
        without(a, x) == a,
    decreases a.len(),
{
    if a.len() > 0 {
        lemma_without_absent(a.drop_last(), x);
        assert(a[a.len() - 1] == a.last());
        assert(a.drop_last().push(a.last()) =~= a);
    }
}

} // verus!
