//! dsh version checks: recognising a semantic version in `npm` output and
//! ordering two versions (core numbers, then `-rc.N` style prereleases).
use vstd::prelude::*;
use crate::text::{chars_of, split_chars, parse_digits, trim_bounds, substring};

verus! {

/// `s` up to its first `-` or `+`.
pub open spec fn cut_at_sign(s: Seq<char>) -> Seq<char>
    decreases s.len(),
{
    if s.len() == 0 || s[0] == '-' || s[0] == '+' {
        Seq::empty()
    } else {
        seq![s[0]] + cut_at_sign(s.drop_first())
    }
}

/// `s` looks like `x.y.z[…]`: the part before the first `-`/`+` splits at
/// dots into at least three non-empty all-digit pieces.
pub open spec fn looks_like_version_spec(s: Seq<char>) -> bool {
    let parts = crate::text::split_on(cut_at_sign(s), '.');
    parts.len() >= 3 && forall|i: int| 0 <= i < parts.len() ==> (#[trigger] parts[i]).len() > 0
        && crate::text::all_digits(parts[i])
}

/// Index of the first `-` or `+` of `s`, or its length.
fn sign_index(s: &Vec<char>) -> (e: usize)
    ensures
        e <= s@.len(),
        s@.take(e as int) == cut_at_sign(s@),
{
    let mut e: usize = 0;
    assert(s@.skip(0) =~= s@);
    assert(s@.take(0) + cut_at_sign(s@) =~= cut_at_sign(s@));
    while e < s.len() && s[e] != '-' && s[e] != '+'
        invariant
            e <= s@.len(),
            cut_at_sign(s@) == s@.take(e as int) + cut_at_sign(s@.skip(e as int)),
        decreases s.len() - e,
    {
        assert(s@.skip(e as int).drop_first() =~= s@.skip(e + 1));
        assert(s@.take(e + 1) =~= s@.take(e as int) + seq![s@[e as int]]);
        e = e + 1;
    }
    assert(s@.take(e as int) + Seq::<char>::empty() =~= s@.take(e as int));
    e
}

/// Whether every character of `v` is a digit and there is at least one.
fn nonempty_digits(v: &Vec<char>) -> (b: bool)
    ensures
        b == (v@.len() > 0 && crate::text::all_digits(v@)),
{
    if v.len() == 0 {
        return false;
    }
    let mut i: usize = 0;
    while i < v.len()
        invariant
            i <= v@.len(),
            forall|k: int| 0 <= k < i ==> crate::text::is_digit(#[trigger] v@[k]),
        decreases v.len() - i,
    {
        if !crate::text::is_digit_char(v[i]) {
            return false;
        }
        i = i + 1;
    }
    true
}

/// Best-effort check whether a string looks like a semantic version.
pub fn looks_like_version(s: &str) -> (b: bool)
    ensures
        b == looks_like_version_spec(s@),
{
    let v = chars_of(s);
    let e = sign_index(&v);
    let parts = split_chars(&v, 0, e, '.');
    assert(v@.subrange(0, e as int) =~= v@.take(e as int));
    if parts.len() < 3 {
        return false;
    }
    let mut i: usize = 0;
    while i < parts.len()
        invariant
            i <= parts@.len(),
            crate::text::views(parts@) == crate::text::split_on(cut_at_sign(s@), '.'),
            forall|k: int| 0 <= k < i ==> (#[trigger] parts@[k])@.len() > 0 && crate::text::all_digits(parts@[k]@),
        decreases parts.len() - i,
    {
        if !nonempty_digits(&parts[i]) {
            assert(crate::text::views(parts@)[i as int] == parts@[i as int]@);
            return false;
        }
        i = i + 1;
    }
    assert forall|k: int| 0 <= k < parts@.len() implies (#[trigger] crate::text::views(parts@)[k]).len() > 0
        && crate::text::all_digits(crate::text::views(parts@)[k]) by {
        assert(crate::text::views(parts@)[k] == parts@[k]@);
    }
    true
}

} // verus!

verus! {

/// `s` parsed as a `u64` (`str::parse::<u64>`: an optional `+`, then one or
/// more digits, no overflow).
pub open spec fn parse_u64(p: Seq<char>) -> Option<u64> {
    let q = if p.len() > 0 && p[0] == '+' { p.drop_first() } else { p };
    match crate::text::parse_bounded(q, u64::MAX as nat) {
        Some(v) => Some(v as u64),
        None => None,
    }
}

/// `s` split at its first `-` into the core and the prerelease.
pub open spec fn split_prerelease(s: Seq<char>) -> (Seq<char>, Option<Seq<char>>) {
    match crate::text::find(s, seq!['-']) {
        Some(i) => (s.take(i), Some(s.skip(i + 1))),
        None => (s, None),
    }
}

/// The pieces that parse as `u64`, parsed, in order.
pub open spec fn numbers_of(pieces: Seq<Seq<char>>) -> Seq<u64>
    decreases pieces.len(),
{
    if pieces.len() == 0 {
        Seq::empty()
    } else {
        match parse_u64(pieces.last()) {
            Some(v) => numbers_of(pieces.drop_last()).push(v),
            None => numbers_of(pieces.drop_last()),
        }
    }
}

/// The numeric pieces of a version core (pieces that do not parse are skipped).
pub open spec fn core_numbers(core: Seq<char>) -> Seq<u64> {
    numbers_of(crate::text::split_on(core, '.'))
}

/// `v[i]`, or 0 past its end.
pub open spec fn padded(v: Seq<u64>, i: int) -> u64 {
    if 0 <= i < v.len() { v[i] } else { 0 }
}

/// Comparison of two zero-padded number lists from position `i` on:
/// `Some(true)` when `a` is larger at the first difference, `Some(false)`
/// when smaller, `None` when they agree.
pub open spec fn compare_from(a: Seq<u64>, b: Seq<u64>, i: int) -> Option<bool>
    decreases (if a.len() > b.len() { a.len() } else { b.len() }) - i,
{
    if i < 0 || i >= (if a.len() > b.len() { a.len() } else { b.len() }) {
        None
    } else if padded(a, i) != padded(b, i) {
        Some(padded(a, i) > padded(b, i))
    } else {
        compare_from(a, b, i + 1)
    }
}

/// Lexicographic "greater than" on character sequences (`String` order).
pub open spec fn seq_gt(a: Seq<char>, b: Seq<char>) -> bool
    decreases a.len(),
{
    if a.len() == 0 {
        false
    } else if b.len() == 0 {
        true
    } else if a[0] != b[0] {
        a[0] > b[0]
    } else {
        seq_gt(a.drop_first(), b.drop_first())
    }
}

/// The piece of `p` after its last dot (`p.rsplit('.').next()`).
pub open spec fn last_piece(p: Seq<char>) -> Seq<char> {
    crate::text::split_on(p, '.').last()
}

/// `a` is a newer version than `b`.
pub open spec fn version_newer_spec(a: Seq<char>, b: Seq<char>) -> bool {
    let (ac, ap) = split_prerelease(a);
    let (bc, bp) = split_prerelease(b);
    match compare_from(core_numbers(ac), core_numbers(bc), 0) {
        Some(r) => r,
        None => match (ap, bp) {
            (None, Some(_)) => true,
            (Some(_), None) => false,
            (Some(x), Some(y)) => match (parse_u64(last_piece(x)), parse_u64(last_piece(y))) {
                (Some(m), Some(n)) => m > n,
                _ => seq_gt(x, y),
            },
            (None, None) => false,
        },
    }
}

/// [`parse_u64`] on a character vector.
fn parse_u64_exec(p: &Vec<char>) -> (r: Option<u64>)
    ensures
        r == parse_u64(p@),
{
    if p.len() > 0 && p[0] == '+' {
        let r = parse_digits(p, 1, p.len(), u64::MAX);
        assert(p@.subrange(1, p@.len() as int) =~= p@.drop_first());
        r
    } else {
        let r = parse_digits(p, 0, p.len(), u64::MAX);
        assert(p@.subrange(0, p@.len() as int) =~= p@);
        r
    }
}

/// The numeric pieces of `s[start..end]`.
fn core_numbers_exec(s: &Vec<char>, start: usize, end: usize) -> (nums: Vec<u64>)
    requires
        start <= end <= s@.len(),
    ensures
        nums@ == core_numbers(s@.subrange(start as int, end as int)),
{
    let parts = split_chars(s, start, end, '.');
    let ghost pv = crate::text::views(parts@);
    let mut nums: Vec<u64> = Vec::new();
    let mut i: usize = 0;
    assert(pv.take(0) =~= Seq::<Seq<char>>::empty());
    while i < parts.len()
        invariant
            i <= parts@.len(),
            pv == crate::text::views(parts@),
            pv.len() == parts@.len(),
            nums@ == numbers_of(pv.take(i as int)),
        decreases parts.len() - i,
    {
        assert(pv.take(i + 1).drop_last() =~= pv.take(i as int));
        assert(pv.take(i + 1).last() == parts@[i as int]@);
        let ghost prev = nums@;
        let r = parse_u64_exec(&parts[i]);
        assert(pv[i as int] == parts@[i as int]@);
        assert(pv.take(i + 1).last() == pv[i as int]);
        assert(r == parse_u64(pv[i as int]));

        match r {
            Some(v) => {
                nums.push(v);
            },
            None => {},
        }
        i = i + 1;
    }
    assert(pv.take(parts@.len() as int) =~= pv);
    nums
}

/// [`compare_from`] on vectors, from position 0.
fn compare_numbers(a: &Vec<u64>, b: &Vec<u64>) -> (r: Option<bool>)
    ensures
        r == compare_from(a@, b@, 0),
{
    let len = if a.len() > b.len() { a.len() } else { b.len() };
    let mut i: usize = 0;
    while i < len
        invariant
            len == (if a@.len() > b@.len() { a@.len() } else { b@.len() }),
            i <= len,
            compare_from(a@, b@, 0) == compare_from(a@, b@, i as int),
        decreases len - i,
    {
        let av = if i < a.len() { a[i] } else { 0 };
        let bv = if i < b.len() { b[i] } else { 0 };
        if av != bv {
            return Some(av > bv);
        }
        i = i + 1;
    }
    None
}

/// [`seq_gt`] on vectors.
fn chars_gt(a: &Vec<char>, b: &Vec<char>) -> (r: bool)
    ensures
        r == seq_gt(a@, b@),
{
    let mut i: usize = 0;
    assert(a@.skip(0) =~= a@);
    assert(b@.skip(0) =~= b@);
    while i < a.len()
        invariant
            i <= a@.len(),
            i <= b@.len(),
            seq_gt(a@, b@) == seq_gt(a@.skip(i as int), b@.skip(i as int)),
        decreases a.len() - i,
    {
        if i == b.len() {
            return true;
        }
        if a[i] != b[i] {
            return a[i] > b[i];
        }
        assert(a@.skip(i as int).drop_first() =~= a@.skip(i + 1));
        assert(b@.skip(i as int).drop_first() =~= b@.skip(i + 1));
        i = i + 1;
    }
    false
}

/// The piece of `p` after its last dot.
fn last_piece_exec(p: &Vec<char>) -> (r: Vec<char>)
    ensures
        r@ == last_piece(p@),
{
    let mut parts = split_chars(p, 0, p.len(), '.');
    assert(p@.subrange(0, p@.len() as int) =~= p@);
    proof { crate::text::lemma_split_nonempty(p@, '.'); }
    let ghost pv = crate::text::views(parts@);
    let r = parts.pop().unwrap();
    assert(pv.last() == r@);
    r
}

/// Compare two version strings: true when `a` is newer than `b`. The
/// `x.y.z` core is compared number by number (missing pieces count as 0);
/// with equal cores a release beats a prerelease, and two prereleases are
/// ordered by their trailing number (or as text when it is not a number).
pub fn version_newer(a: &str, b: &str) -> (r: bool)
    ensures
        r == version_newer_spec(a@, b@),
{
    let av = chars_of(a);
    let bv = chars_of(b);
    let dash = vec!['-'];
    assert(dash@ =~= seq!['-']);
    let ai = crate::text::find_exec(&av, &dash);
    let bi = crate::text::find_exec(&bv, &dash);
    let a_core_end = match ai { Some(i) => i, None => av.len() };
    let b_core_end = match bi { Some(i) => i, None => bv.len() };
    assert(av@.subrange(0, a_core_end as int) == split_prerelease(a@).0);
    assert(bv@.subrange(0, b_core_end as int) == split_prerelease(b@).0);
    let an = core_numbers_exec(&av, 0, a_core_end);
    let bn = core_numbers_exec(&bv, 0, b_core_end);
    match compare_numbers(&an, &bn) {
        Some(r) => return r,
        None => {},
    }
    match (ai, bi) {
        (None, Some(_)) => true,
        (Some(_), None) => false,
        (None, None) => false,
        (Some(i), Some(j)) => {
            let n = av.len();
            let m = bv.len();
            let mut ap: Vec<char> = Vec::new();
            let mut k = i + 1;
            while k < n
                invariant
                    i + 1 <= k <= n,
                    n == av@.len(),
                    ap@ == av@.subrange(i + 1, k as int),
                decreases n - k,
            {
                ap.push(av[k]);
                k = k + 1;
            }
            let mut bp: Vec<char> = Vec::new();
            let mut k = j + 1;
            while k < m
                invariant
                    j + 1 <= k <= m,
                    m == bv@.len(),
                    bp@ == bv@.subrange(j + 1, k as int),
                decreases m - k,
            {
                bp.push(bv[k]);
                k = k + 1;
            }
            assert(ap@ =~= a@.skip(i + 1));
            assert(bp@ =~= b@.skip(j + 1));
            let al = last_piece_exec(&ap);
            let bl = last_piece_exec(&bp);
            match (parse_u64_exec(&al), parse_u64_exec(&bl)) {
                (Some(x), Some(y)) => x > y,
                _ => chars_gt(&ap, &bp),
            }
        },
    }
}

} // verus!

verus! {

/// Result of a version check.
#[derive(Debug)]
pub struct UpdateInfo {
    /// Locally installed dsh version.
    pub current: String,
    /// Latest version published to the registry.
    pub latest: String,
    /// Whether the registry has a newer version than the local one.
    pub has_update: bool,
}

/// Update-event payload shown by the user interface.
#[derive(Debug)]
pub struct UpdateEventPayload {
    pub current: String,
    pub latest: String,
    pub has_update: bool,
}

impl UpdateEventPayload {
    /// The payload carrying `info`.
    pub fn from(info: UpdateInfo) -> (p: UpdateEventPayload)
        ensures
            p.current == info.current,
            p.latest == info.latest,
            p.has_update == info.has_update,
    {
        UpdateEventPayload { current: info.current, latest: info.latest, has_update: info.has_update }
    }
}

/// The first line (trimmed) that looks like a version.
pub open spec fn first_version_line(lines: Seq<Seq<char>>) -> Option<Seq<char>>
    decreases lines.len(),
{
    if lines.len() == 0 {
        None
    } else if looks_like_version_spec(crate::text::trim(lines[0])) {
        Some(crate::text::trim(lines[0]))
    } else {
        first_version_line(lines.drop_first())
    }
}

/// Installed version read from `dsh --version` output.
pub open spec fn installed_version(out: Seq<char>) -> Option<Seq<char>> {
    if crate::text::trim(out).len() == 0 { None } else { Some(crate::text::trim(out)) }
}

/// Latest version read from `npm view @deepseek-ai/dsh version` output,
/// which may carry warnings before it.
pub open spec fn registry_version(out: Seq<char>) -> Option<Seq<char>> {
    first_version_line(crate::text::split_on(out, '\n'))
}

/// The view of an optional string slice.
pub open spec fn opt_view(s: Option<&str>) -> Option<Seq<char>> {
    match s {
        Some(x) => Some(x@),
        None => None,
    }
}

/// (current, latest, has_update) of a check, from the two command outputs.
pub open spec fn update_check_spec(local: Option<Seq<char>>, registry: Option<Seq<char>>) -> Option<(Seq<char>, Seq<char>, bool)> {
    match (local, registry) {
        (Some(l), Some(o)) => match (installed_version(l), registry_version(o)) {
            (Some(c), Some(n)) => Some((c, n, version_newer_spec(n, c))),
            _ => None,
        },
        _ => None,
    }
}

/// Whether a trimmed string looks like a version (on a character vector range).
fn looks_like_version_chars(v: &Vec<char>, a: usize, b: usize) -> (r: bool)
    requires
        a <= b <= v@.len(),
    ensures
        r == looks_like_version_spec(v@.subrange(a as int, b as int)),
{
    let s = substring(v, a, b);
    looks_like_version(s.as_str())
}

/// Compare the installed version with the registry's latest. `local_output`
/// is what `dsh --version` printed and `registry_output` what the registry
/// query printed (`None` when a command could not be run); `None` comes back
/// when either version cannot be determined.
pub fn check_for_update(local_output: Option<&str>, registry_output: Option<&str>) -> (r: Option<UpdateInfo>)
    ensures
        match r {
            Some(info) => update_check_spec(opt_view(local_output), opt_view(registry_output))
                == Some((info.current@, info.latest@, info.has_update)),
            None => update_check_spec(opt_view(local_output), opt_view(registry_output)) is None,
        },
{
    let l = match local_output { Some(l) => l, None => return None };
    let o = match registry_output { Some(o) => o, None => return None };
    let lv = chars_of(l);
    let (la, lb) = trim_bounds(&lv, 0, lv.len());
    assert(lv@.subrange(0, lv@.len() as int) =~= lv@);
    if la == lb {
        return None;
    }
    let current = substring(&lv, la, lb);
    let ov = chars_of(o);
    let lines = split_chars(&ov, 0, ov.len(), '\n');
    assert(ov@.subrange(0, ov@.len() as int) =~= ov@);
    let ghost lv_ = crate::text::views(lines@);
    let mut i: usize = 0;
    assert(lv_.skip(0) =~= lv_);
    while i < lines.len()
        invariant
            i <= lines@.len(),
            installed_version(l@) == Some(current@),
            local_output == Some(l),
            registry_output == Some(o),
            lv_ == crate::text::views(lines@),
            lv_ == crate::text::split_on(o@, '\n'),
            first_version_line(lv_) == first_version_line(lv_.skip(i as int)),
        decreases lines.len() - i,
    {
        let line = &lines[i];
        let (a, b) = trim_bounds(line, 0, line.len());
        assert(line@.subrange(0, line@.len() as int) =~= line@);
        assert(lv_[i as int] == line@);
        assert(lv_.skip(i as int)[0] == line@);
        if looks_like_version_chars(line, a, b) {
            let latest = substring(line, a, b);
            let has_update = version_newer(latest.as_str(), current.as_str());
            assert(first_version_line(lv_.skip(i as int)) == Some(latest@));
            assert(registry_version(o@) == Some(latest@));
            assert(has_update == version_newer_spec(latest@, current@));
            let info = UpdateInfo { current, latest, has_update };
            return Some(info);
        }
        assert(lv_.skip(i as int).drop_first() =~= lv_.skip(i + 1));
        i = i + 1;
    }
    None
}

/// Label of the tray's update item.
pub open spec fn update_label_spec(update: Option<UpdateInfo>) -> Seq<char> {
    match update {
        Some(u) => if u.has_update { "发现新版本 v"@ + u.latest@ + " → 更新"@ } else { "发现新版本"@ },
        None => "发现新版本"@,
    }
}

/// Label of the tray's update item for the last check result.
pub fn update_label(update: &Option<UpdateInfo>) -> (s: String)
    ensures
        s@ == update_label_spec(*update),
{
    proof {
        reveal_strlit("发现新版本 v");
        reveal_strlit(" → 更新");
        reveal_strlit("发现新版本");
    }
    match update {
        Some(u) => if u.has_update {
            let mut s = String::from_str("发现新版本 v");
            s.append(u.latest.as_str());
            s.append(" → 更新");
            s
        } else {
            String::from_str("发现新版本")
        },
        None => String::from_str("发现新版本"),
    }
}

/// Feedback of a manual update check: success flag and message.
pub open spec fn update_check_feedback(result: Option<UpdateInfo>) -> (bool, Seq<char>) {
    match result {
        Some(info) => (true, if info.has_update {
            "发现 dsh 新版本 v"@ + info.latest@ + "（当前运行 v"@ + info.current@ + "）"@
        } else {
            "当前 dsh 已是最新版本 (v"@ + info.current@ + ")"@
        }),
        None => (false, "检查更新失败：未能获取 dsh 版本或网络不可用"@),
    }
}

/// Feedback shown after a manual update check.
pub fn update_check_message(result: &Option<UpdateInfo>) -> (r: (bool, String))
    ensures
        r.0 == update_check_feedback(*result).0,
        r.1@ == update_check_feedback(*result).1,
{
    proof {
        reveal_strlit("发现 dsh 新版本 v");
        reveal_strlit("（当前运行 v");
        reveal_strlit("）");
        reveal_strlit("当前 dsh 已是最新版本 (v");
        reveal_strlit(")");
        reveal_strlit("检查更新失败：未能获取 dsh 版本或网络不可用");
    }
    match result {
        Some(info) => {
            if info.has_update {
                let mut s = String::from_str("发现 dsh 新版本 v");
                s.append(info.latest.as_str());
                s.append("（当前运行 v");
                s.append(info.current.as_str());
                s.append("）");
                (true, s)
            } else {
                let mut s = String::from_str("当前 dsh 已是最新版本 (v");
                s.append(info.current.as_str());
                s.append(")");
                (true, s)
            }
        },
        None => (false, String::from_str("检查更新失败：未能获取 dsh 版本或网络不可用")),
    }
}

} // verus!

verus! {

/// Comparing a list with itself finds no difference.
proof fn lemma_compare_self(a: Seq<u64>, i: int)
    ensures
        compare_from(a, a, i) is None,
    decreases a.len() - i,
{
    if 0 <= i < a.len() {
        lemma_compare_self(a, i + 1);
    }
}

/// Comparing the other way round flips the answer.
proof fn lemma_compare_flip(a: Seq<u64>, b: Seq<u64>, i: int)
    ensures
        compare_from(b, a, i) == match compare_from(a, b, i) {
            Some(r) => Some(!r),
            None => None::<bool>,
        },
    decreases (if a.len() > b.len() { a.len() } else { b.len() }) - i,
{
    let n = if a.len() > b.len() { a.len() } else { b.len() };
    if 0 <= i < n && padded(a, i) == padded(b, i) {
        lemma_compare_flip(a, b, i + 1);
    }
}

/// No string is greater than itself.
proof fn lemma_seq_gt_irreflexive(a: Seq<char>)
    ensures
        !seq_gt(a, a),
    decreases a.len(),
{
    if a.len() > 0 {
        lemma_seq_gt_irreflexive(a.drop_first());
    }
}

/// Two strings are never each greater than the other.
proof fn lemma_seq_gt_asymmetric(a: Seq<char>, b: Seq<char>)
    ensures
        !(seq_gt(a, b) && seq_gt(b, a)),
    decreases a.len(),
{
    if a.len() > 0 && b.len() > 0 && a[0] == b[0] {
        lemma_seq_gt_asymmetric(a.drop_first(), b.drop_first());
    }
}

/// "Newer than" is a strict order on any two version strings: no version is
/// newer than itself, and of two versions at most one is newer than the other.
pub proof fn law_newer_is_strict(a: Seq<char>, b: Seq<char>)
    ensures
        !version_newer_spec(a, a),
        !(version_newer_spec(a, b) && version_newer_spec(b, a)),
{
    let (ac, ap) = split_prerelease(a);
    let (bc, bp) = split_prerelease(b);
    lemma_compare_self(core_numbers(ac), 0);
    lemma_compare_flip(core_numbers(ac), core_numbers(bc), 0);
    match ap {
        Some(x) => {
            lemma_seq_gt_irreflexive(x);
        },
        None => {},
    }
    match (ap, bp) {
        (Some(x), Some(y)) => {
            lemma_seq_gt_asymmetric(x, y);
        },
        _ => {},
    }
}

/// A decimal rendering is a non-empty run of digits that reads back as its
/// number.
pub proof fn lemma_decimal_reads_back(n: nat)
    ensures
        crate::text::decimal(n).len() > 0,
        crate::text::all_digits(crate::text::decimal(n)),
        crate::text::digits_value(crate::text::decimal(n)) == n,
    decreases n,
{
    let d = crate::text::decimal(n);
    if n < 10 {
        let c = crate::text::digit_chars()[n as int];
        assert(d == seq![c]);
        assert(seq![c].drop_last() =~= Seq::<char>::empty());
        assert(crate::text::digits_value(Seq::<char>::empty()) == 0);
        assert(c == '0' || c == '1' || c == '2' || c == '3' || c == '4' || c == '5' || c == '6' || c == '7' || c == '8' || c == '9');
        assert(crate::text::digit_value(c) == n);
    } else {
        lemma_decimal_reads_back(n / 10);
        let p = crate::text::decimal(n / 10);
        let c = crate::text::digit_chars()[(n % 10) as int];
        assert(d == p.push(c));
        assert(c == '0' || c == '1' || c == '2' || c == '3' || c == '4' || c == '5' || c == '6' || c == '7' || c == '8' || c == '9');
        assert(crate::text::digit_value(c) == n % 10);
        crate::text::lemma_digits_value_grows(p, c);
        assert forall|k: int| 0 <= k < d.len() implies crate::text::is_digit(#[trigger] d[k]) by {
            if k < p.len() {
                assert(d[k] == p[k]);
            }
        }
    }
}

/// The decimal rendering of `m` parses as `m`.
pub proof fn lemma_parse_decimal(m: u64)
    ensures
        parse_u64(crate::text::decimal(m as nat)) == Some(m),
{
    lemma_decimal_reads_back(m as nat);
    let d = crate::text::decimal(m as nat);
    assert(crate::text::is_digit(d[0]));
}

/// The piece after the last dot of `p.d`, where `d` holds no dot, is `d`.
pub proof fn lemma_last_piece_after_dot(p: Seq<char>, d: Seq<char>)
    requires
        !d.contains('.'),
    ensures
        last_piece(p + seq!['.'] + d) == d,
    decreases d.len(),
{
    let x = p + seq!['.'] + d;
    if d.len() == 0 {
        assert(x =~= p.push('.'));
        assert(x.drop_last() =~= p);
    } else {
        let d2 = d.drop_last();
        assert(!d2.contains('.')) by {
            if d2.contains('.') {
                let k = choose|k: int| 0 <= k < d2.len() && d2[k] == '.';
                assert(d[k] == '.');
            }
        }
        lemma_last_piece_after_dot(p, d2);
        assert(x.drop_last() =~= p + seq!['.'] + d2);
        assert(x.last() == d.last());
        assert(d.last() != '.') by {
            assert(d[d.len() - 1] == d.last());
        }
        crate::text::lemma_split_nonempty(x.drop_last(), '.');
        assert(d2.push(d.last()) =~= d);
    }
}

/// The first `-` of `s` is at `k` when `s[k]` is one and none comes before,
/// searching from `i`.
proof fn lemma_find_dash(s: Seq<char>, i: int, k: int)
    requires
        0 <= i <= k < s.len(),
        s[k] == '-',
        forall|j: int| i <= j < k ==> s[j] != '-',
    ensures
        crate::text::find_from(s, seq!['-'], i) == Some(k),
    decreases k - i,
{
    if i < k {
        assert(!crate::text::occurs_at(s, seq!['-'], i)) by {
            assert(s.subrange(i, i + 1)[0] == s[i]);
        }
        lemma_find_dash(s, i + 1, k);
    } else {
        assert(s.subrange(k, k + 1) =~= seq!['-']);
    }
}


/// A version `core-pre.N` split at its first `-`.
proof fn lemma_split_prerelease_of(core: Seq<char>, pre: Seq<char>)
    requires
        !core.contains('-'),
    ensures
        split_prerelease(core + seq!['-'] + pre) == (core, Some(pre)),
{
    let a = core + seq!['-'] + pre;
    assert forall|j: int| 0 <= j < core.len() implies a[j] != '-' by {
        assert(a[j] == core[j]);
        if core[j] == '-' {
            assert(core.contains('-'));
        }
    }
    lemma_find_dash(a, 0, core.len() as int);
    assert(a.take(core.len() as int) =~= core);
    assert(a.skip(core.len() + 1 as int) =~= pre);
}

/// Two prereleases of the same version whose last dot-pieces are numbers
/// are ordered by those numbers, not as text: `x-rc.10` is newer than
/// `x-rc.9`, and `x-a.M` is newer than `x-b.N` exactly when `M > N`.
pub proof fn law_prerelease_numbers_order(core: Seq<char>, pa: Seq<char>, pb: Seq<char>, m: u64, n: u64)
    requires
        !core.contains('-'),
    ensures
        version_newer_spec(
            core + seq!['-'] + (pa + seq!['.'] + crate::text::decimal(m as nat)),
            core + seq!['-'] + (pb + seq!['.'] + crate::text::decimal(n as nat)),
        ) == (m > n),
{
    let x = pa + seq!['.'] + crate::text::decimal(m as nat);
    let y = pb + seq!['.'] + crate::text::decimal(n as nat);
    lemma_split_prerelease_of(core, x);
    lemma_split_prerelease_of(core, y);
    lemma_compare_self(core_numbers(core), 0);
    lemma_decimal_reads_back(m as nat);
    lemma_decimal_reads_back(n as nat);
    assert(!crate::text::decimal(m as nat).contains('.')) by {
        let d = crate::text::decimal(m as nat);
        if d.contains('.') {
            let k = choose|k: int| 0 <= k < d.len() && d[k] == '.';
            assert(crate::text::is_digit(d[k]));
        }
    }
    assert(!crate::text::decimal(n as nat).contains('.')) by {
        let d = crate::text::decimal(n as nat);
        if d.contains('.') {
            let k = choose|k: int| 0 <= k < d.len() && d[k] == '.';
            assert(crate::text::is_digit(d[k]));
        }
    }
    lemma_last_piece_after_dot(pa, crate::text::decimal(m as nat));
    lemma_last_piece_after_dot(pb, crate::text::decimal(n as nat));
    lemma_parse_decimal(m);
    lemma_parse_decimal(n);
}

} // verus!
