//! Recognising a dsh web server that already runs on a local port, and
//! reading the tail of the kernel log.
use vstd::prelude::*;
use crate::text::{chars_of, lit, string_from_chars, find_exec, decimal_string, concat_str};

verus! {

/// `s` without the entries equal to `p`, in order.
pub open spec fn skip_port(s: Seq<u16>, p: u16) -> Seq<u16>
    decreases s.len(),
{
    if s.len() == 0 {
        s
    } else if s.last() == p {
        skip_port(s.drop_last(), p)
    } else {
        skip_port(s.drop_last(), p).push(s.last())
    }
}

/// The ports probed for a running dsh, in order: the preferred one (when
/// set and not 0), then 3080–3085 without repeating it.
pub open spec fn candidate_ports_spec(preferred: Option<u16>) -> Seq<u16> {
    let standard = seq![3080u16, 3081u16, 3082u16, 3083u16, 3084u16, 3085u16];
    match preferred {
        Some(p) => if p > 0 {
            seq![p] + skip_port(standard, p)
        } else {
            standard
        },
        None => standard,
    }
}

/// The ports to probe for an already running dsh.
pub fn candidate_ports(preferred: Option<u16>) -> (r: Vec<u16>)
    ensures
        r@ == candidate_ports_spec(preferred),
{
    let mut out: Vec<u16> = Vec::new();
    let first: u16 = match preferred {
        Some(p) => p,
        None => 0,
    };
    if first > 0 {
        out.push(first);
    }
    let standard: [u16; 6] = [3080, 3081, 3082, 3083, 3084, 3085];
    let ghost std_seq = seq![3080u16, 3081u16, 3082u16, 3083u16, 3084u16, 3085u16];
    assert(standard@ == std_seq);
    let ghost head: Seq<u16> = if first > 0 { seq![first] } else { Seq::empty() };
    let mut i: usize = 0;
    while i < 6
        invariant
            i <= 6,
            standard@ == std_seq,
            out@ == head + (if first > 0 { skip_port(std_seq.take(i as int), first) } else { std_seq.take(i as int) }),
        decreases 6 - i,
    {
        let q = standard[i];
        proof {
            assert(std_seq.take(i + 1).drop_last() =~= std_seq.take(i as int));
            assert(std_seq.take(i + 1).last() == q);
        }
        if first == 0 || q != first {
            out.push(q);
        }
        i = i + 1;
    }
    assert(std_seq.take(6) =~= std_seq);
    proof {
        if first > 0 {
            assert(out@ =~= candidate_ports_spec(preferred));
        } else {
            assert(out@ =~= candidate_ports_spec(preferred));
        }
    }
    out
}

/// ASCII letters lowered, other characters kept (`str::to_ascii_lowercase`).
pub open spec fn ascii_lower(s: Seq<char>) -> Seq<char> {
    Seq::new(s.len(), |i: int| if 'A' <= s[i] && s[i] <= 'Z' { ((s[i] as u32) + 32) as char } else { s[i] })
}

/// `needle` occurs in `s`.
pub open spec fn has(s: Seq<char>, needle: Seq<char>) -> bool {
    crate::text::find(s, needle) is Some
}

/// An HTTP response that comes from a dsh web server: a 200 or 304 status,
/// and a page that names dsh (or is an HTML document).
pub open spec fn is_dsh_response(text: Seq<char>) -> bool {
    let lower = ascii_lower(text);
    (has(text, "HTTP/1.1 200"@) || has(text, "HTTP/1.0 200"@) || has(text, "HTTP/1.1 304"@))
        && (has(lower, "__moduleloader__"@) || has(lower, "__dsh_boot__"@) || has(lower, "deepseek"@)
            || has(lower, "dsh"@) || (has(lower, "content-type: text/html"@) && has(lower, "<!doctype html>"@)))
}

/// The base URL of a local port.
pub open spec fn local_url(port: u16) -> Seq<char> {
    "http://127.0.0.1:"@ + crate::text::decimal(port as nat)
}

/// The base URL of a local port: `http://127.0.0.1:<port>`.
pub fn local_url_of(port: u16) -> (r: String)
    ensures
        r@ == local_url(port),
{
    let p = decimal_string(port as u64);
    concat_str("http://127.0.0.1:", p.as_str())
}

/// The request sent to probe a port.
pub fn probe_request(port: u16) -> (r: String)
    ensures
        r@ == "GET / HTTP/1.1\r\nHost: 127.0.0.1:"@ + crate::text::decimal(port as nat) + "\r\nConnection: close\r\n\r\n"@,
{
    let p = decimal_string(port as u64);
    let a = concat_str("GET / HTTP/1.1\r\nHost: 127.0.0.1:", p.as_str());
    concat_str(a.as_str(), "\r\nConnection: close\r\n\r\n")
}

/// `s` with ASCII letters lowered.
fn ascii_lower_vec(s: &Vec<char>) -> (r: Vec<char>)
    ensures
        r@ == ascii_lower(s@),
{
    let mut out: Vec<char> = Vec::new();
    let mut i: usize = 0;
    while i < s.len()
        invariant
            i <= s@.len(),
            out@.len() == i,
            forall|j: int| 0 <= j < i ==> out@[j] == ascii_lower(s@)[j],
        decreases s.len() - i,
    {
        let c = s[i];
        if 'A' <= c && c <= 'Z' {
            let v: u8 = ((c as u32) + 32) as u8;
            let l = v as char;
            assert(v == (c as u32) + 32);
            out.push(l);
        } else {
            out.push(c);
        }
        i = i + 1;
    }
    assert(out@ =~= ascii_lower(s@));
    out
}

/// Whether `needle` occurs in `s`.
fn has_vec(s: &Vec<char>, needle: &str) -> (b: bool)
    ensures
        b == has(s@, needle@),
{
    let n = lit(needle);
    find_exec(s, &n).is_some()
}

/// Whether the reply `text` to [`probe_request`] comes from a dsh web server.
pub fn looks_like_dsh_response(text: &str) -> (b: bool)
    ensures
        b == is_dsh_response(text@),
{
    let s = chars_of(text);
    let status_ok = has_vec(&s, "HTTP/1.1 200") || has_vec(&s, "HTTP/1.0 200") || has_vec(&s, "HTTP/1.1 304");
    if !status_ok {
        return false;
    }
    let lower = ascii_lower_vec(&s);
    has_vec(&lower, "__moduleloader__") || has_vec(&lower, "__dsh_boot__") || has_vec(&lower, "deepseek")
        || has_vec(&lower, "dsh") || (has_vec(&lower, "content-type: text/html") && has_vec(&lower, "<!doctype html>"))
}

/// The URL of a dsh found on `port` from its reply `text`, if it is one.
pub fn probe_dsh_at_port(port: u16, text: &str) -> (r: Option<String>)
    ensures
        crate::install::opt_string_view(r) == (if is_dsh_response(text@) { Some(local_url(port)) } else { None }),
{
    if looks_like_dsh_response(text) { Some(local_url_of(port)) } else { None }
}

/// The first probed port whose reply shows a dsh web server.
pub open spec fn first_dsh(ports: Seq<u16>, replies: Seq<Option<Seq<char>>>) -> Option<(u16, Seq<char>)>
    decreases ports.len(),
{
    if ports.len() == 0 || replies.len() == 0 {
        None
    } else {
        match replies[0] {
            Some(t) => if is_dsh_response(t) {
                Some((ports[0], local_url(ports[0])))
            } else {
                first_dsh(ports.drop_first(), replies.drop_first())
            },
            None => first_dsh(ports.drop_first(), replies.drop_first()),
        }
    }
}

/// An already running dsh among the probed `ports`: `replies[i]` is what
/// `ports[i]` answered (`None` when it could not be reached); ports past the
/// replies were not probed. The first dsh found, with its URL.
pub fn detect_existing_dsh(ports: &Vec<u16>, replies: &Vec<Option<String>>) -> (r: Option<(u16, String)>)
    requires
        replies@.len() <= ports@.len(),
    ensures
        match (r, first_dsh(ports@, crate::launch::opt_strs(replies@))) {
            (None, None) => true,
            (Some((p, u)), Some((q, w))) => p == q && u@ == w,
            _ => false,
        },
{
    let ghost rv = crate::launch::opt_strs(replies@);
    let mut i: usize = 0;
    assert(ports@.skip(0) =~= ports@);
    assert(rv.skip(0) =~= rv);
    while i < replies.len()
        invariant
            i <= replies@.len(),
            replies@.len() <= ports@.len(),
            rv == crate::launch::opt_strs(replies@),
            first_dsh(ports@, rv) == first_dsh(ports@.skip(i as int), rv.skip(i as int)),
        decreases ports.len() - i,
    {
        assert(ports@.skip(i as int).len() > 0 && rv.skip(i as int).len() > 0);
        assert(ports@.skip(i as int)[0] == ports@[i as int]);
        assert(rv.skip(i as int)[0] == crate::install::opt_string_view(replies@[i as int]));
        match &replies[i] {
            Some(t) => {
                if looks_like_dsh_response(t.as_str()) {
                    return Some((ports[i], local_url_of(ports[i])));
                }
            },
            None => {},
        }
        assert(ports@.skip(i as int).drop_first() =~= ports@.skip(i + 1));
        assert(rv.skip(i as int).drop_first() =~= rv.skip(i + 1));
        i = i + 1;
    }
    assert(rv.skip(i as int).len() == 0);
    None
}

/// The next move while looking for a running dsh.
#[derive(Debug, PartialEq, Eq)]
pub enum DetectStep {
    /// Probe this port next and report its reply.
    Probe(u16),
    /// A dsh answers on this port, at this URL; probing stops.
    Found(u16, String),
    /// Every candidate was probed and none is a dsh.
    NotFound,
}

/// What to do after probing the first `replies.len()` of `ports` in order:
/// stop at the first dsh found, else probe the next port, else give up.
/// Probing therefore stops at the first hit.
pub fn detect_step(ports: &Vec<u16>, replies: &Vec<Option<String>>) -> (r: DetectStep)
    requires
        replies@.len() <= ports@.len(),
    ensures
        match first_dsh(ports@, crate::launch::opt_strs(replies@)) {
            Some((q, w)) => r matches DetectStep::Found(p, u) && p == q && u@ == w,
            None => if replies@.len() < ports@.len() {
                r == DetectStep::Probe(ports@[replies@.len() as int])
            } else {
                r is NotFound
            },
        },
{
    match detect_existing_dsh(ports, replies) {
        Some((p, u)) => DetectStep::Found(p, u),
        None => if replies.len() < ports.len() {
            DetectStep::Probe(ports[replies.len()])
        } else {
            DetectStep::NotFound
        },
    }
}

/// The lines of `text` (`str::lines`): split at `\n`, a `\r` before it
/// dropped, no empty last line after a final newline.
pub open spec fn lines_of(text: Seq<char>) -> Seq<Seq<char>> {
    let parts = crate::text::split_on(text, '\n');
    let parts = if parts.last().len() == 0 { parts.drop_last() } else { parts };
    Seq::new(parts.len(), |i: int| if parts[i].len() > 0 && parts[i].last() == '\r' { parts[i].drop_last() } else { parts[i] })
}

/// `parts` joined with `\n` between them.
pub open spec fn join_lines(parts: Seq<Seq<char>>) -> Seq<char>
    decreases parts.len(),
{
    if parts.len() == 0 {
        Seq::empty()
    } else if parts.len() == 1 {
        parts[0]
    } else {
        join_lines(parts.drop_last()) + seq!['\n'] + parts.last()
    }
}

/// The last `n` lines of the log text, joined with `\n`.
pub open spec fn log_tail_spec(text: Seq<char>, n: nat) -> Seq<char> {
    let lines = lines_of(text);
    let start = if lines.len() > n { lines.len() - n } else { 0 };
    join_lines(lines.skip(start))
}

/// The last `n` lines of the kernel log `text`.
pub fn read_log_tail(text: &str, n: usize) -> (r: String)
    ensures
        r@ == log_tail_spec(text@, n as nat),
{
    let chars = chars_of(text);
    let parts = crate::text::split_chars(&chars, 0, chars.len(), '\n');
    assert(chars@.subrange(0, chars@.len() as int) =~= chars@);
    proof { crate::text::lemma_split_nonempty(text@, '\n'); }
    let ghost pv = crate::text::views(parts@);
    let ghost kept = if pv.last().len() == 0 { pv.drop_last() } else { pv };
    let count = if parts[parts.len() - 1].len() == 0 { parts.len() - 1 } else { parts.len() };
    assert(count == kept.len());
    let start = if count > n { count - n } else { 0 };
    let ghost lines = lines_of(text@);
    assert(lines.len() == count);
    let mut out: Vec<char> = Vec::new();
    let mut i = start;
    while i < count
        invariant
            start <= i <= count <= parts@.len(),
            count == kept.len(),
            pv == crate::text::views(parts@),
            lines == lines_of(text@),
            kept == (if pv.last().len() == 0 { pv.drop_last() } else { pv }),
            pv == crate::text::split_on(text@, '\n'),
            out@ == join_lines(lines.subrange(start as int, i as int)),
        decreases count - i,
    {
        let p = &parts[i];
        assert(kept[i as int] == p@);
        assert(lines[i as int] == (if p@.len() > 0 && p@.last() == '\r' { p@.drop_last() } else { p@ }));
        let end = if p.len() > 0 && p[p.len() - 1] == '\r' { p.len() - 1 } else { p.len() };
        let ghost before = out@;
        if i > start {
            out.push('\n');
        }
        let mut j: usize = 0;
        while j < end
            invariant
                j <= end <= p@.len(),
                out@ == (if i > start { before.push('\n') } else { before }) + p@.take(j as int),
            decreases end - j,
        {
            out.push(p[j]);
            assert(p@.take(j + 1) =~= p@.take(j as int).push(p@[j as int]));
            j = j + 1;
        }
        proof {
            let line = lines[i as int];
            assert(p@.take(end as int) =~= line);
            let sub = lines.subrange(start as int, i + 1);
            assert(sub.drop_last() =~= lines.subrange(start as int, i as int));
            assert(sub.last() == line);
            if i > start {
                assert(out@ =~= join_lines(sub.drop_last()) + seq!['\n'] + sub.last());
            } else {
                assert(sub.len() == 1);
                assert(out@ =~= line);
            }
        }
        i = i + 1;
    }
    assert(lines.subrange(start as int, count as int) =~= lines.skip(start as int));
    string_from_chars(&out)
}

} // verus!

verus! {

/// Membership after a push.
proof fn lemma_contains_push(t: Seq<u16>, l: u16, x: u16)
    ensures
        t.push(l).contains(x) <==> (t.contains(x) || x == l),
{
    if t.contains(x) {
        let k = choose|k: int| 0 <= k < t.len() && t[k] == x;
        assert(t.push(l)[k] == x);
    }
    if x == l {
        assert(t.push(l)[t.len() as int] == x);
    }
    if t.push(l).contains(x) {
        let k = choose|k: int| 0 <= k < t.push(l).len() && t.push(l)[k] == x;
        if k < t.len() {
            assert(t[k] == x);
        }
    }
}

/// `skip_port` drops exactly the entries equal to `p`.
proof fn lemma_skip_port(s: Seq<u16>, p: u16)
    ensures
        forall|x: u16| #[trigger] skip_port(s, p).contains(x) <==> (s.contains(x) && x != p),
        (forall|i: int, j: int| 0 <= i < j < s.len() ==> s[i] != s[j])
            ==> (forall|i: int, j: int| 0 <= i < j < skip_port(s, p).len() ==> skip_port(s, p)[i] != skip_port(s, p)[j]),
    decreases s.len(),
{
    if s.len() > 0 {
        let t = s.drop_last();
        let l = s.last();
        assert(s =~= t.push(l));
        lemma_skip_port(t, p);
        let w = skip_port(t, p);
        assert forall|x: u16| #[trigger] skip_port(s, p).contains(x) <==> (s.contains(x) && x != p) by {
            lemma_contains_push(t, l, x);
            if l != p {
                lemma_contains_push(w, l, x);
            }
        }
        if forall|i: int, j: int| 0 <= i < j < s.len() ==> s[i] != s[j] {
            assert forall|i: int, j: int| 0 <= i < j < t.len() implies t[i] != t[j] by {
                assert(t[i] == s[i] && t[j] == s[j]);
            }
            if l != p {
                assert forall|i: int, j: int| 0 <= i < j < w.push(l).len() implies w.push(l)[i] != w.push(l)[j] by {
                    if j == w.len() {
                        assert(w.push(l)[i] == w[i]);
                        assert(w.contains(w[i]));
                        assert(t.contains(w[i]));
                        let k = choose|k: int| 0 <= k < t.len() && t[k] == w[i];
                        assert(s[k] == t[k]);
                        assert(s[s.len() - 1] == l);
                    } else {
                        assert(w.push(l)[i] == w[i] && w.push(l)[j] == w[j]);
                    }
                }
            }
        }
    }
}

/// The probed ports never repeat, and the preferred port (when set) comes first.
pub proof fn law_candidate_ports_distinct(preferred: Option<u16>)
    ensures
        forall|i: int, j: int| 0 <= i < j < candidate_ports_spec(preferred).len()
            ==> candidate_ports_spec(preferred)[i] != candidate_ports_spec(preferred)[j],
        (preferred matches Some(p) && p > 0) ==> candidate_ports_spec(preferred)[0] == preferred->Some_0,
        forall|q: u16| 3080 <= q <= 3085 ==> #[trigger] candidate_ports_spec(preferred).contains(q),
{
    let standard = seq![3080u16, 3081u16, 3082u16, 3083u16, 3084u16, 3085u16];
    assert(forall|i: int, j: int| 0 <= i < j < standard.len() ==> standard[i] != standard[j]);
    assert forall|q: u16| 3080 <= q <= 3085 implies #[trigger] standard.contains(q) by {
        assert(standard[(q - 3080) as int] == q);
    }
    match preferred {
        Some(p) => {
            if p > 0 {
                lemma_skip_port(standard, p);
                let r = candidate_ports_spec(preferred);
                let w = skip_port(standard, p);
                assert(r == seq![p] + w);
                assert forall|i: int, j: int| 0 <= i < j < r.len() implies r[i] != r[j] by {
                    if i == 0 {
                        assert(r[j] == w[j - 1]);
                        assert(w.contains(w[j - 1]));
                    } else {
                        assert(r[i] == w[i - 1] && r[j] == w[j - 1]);
                    }
                }
                assert forall|q: u16| 3080 <= q <= 3085 implies #[trigger] r.contains(q) by {
                    if q == p {
                        assert(r[0] == q);
                    } else {
                        assert(standard.contains(q));
                        assert(w.contains(q));
                        let k = choose|k: int| 0 <= k < w.len() && w[k] == q;
                        assert(r[k + 1] == q);
                    }
                }
            }
        },
        None => {},
    }
}

} // verus!
