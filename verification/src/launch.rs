//! Finding and launching dsh: the script's shebang, the search over `PATH`,
//! and the command line the kernel is started with.
use vstd::prelude::*;
use crate::kernel::{DshExec, DshNotFound};
use crate::text::{chars_of, lit, string_from_chars, subvec, is_ws, trim_start, take_until_ws};

verus! {

/// Leading whitespace is never longer than the text.
pub proof fn lemma_trim_start_len(s: Seq<char>)
    ensures
        trim_start(s).len() <= s.len(),
        trim_start(s).len() > 0 ==> !is_ws(trim_start(s)[0]),
    decreases s.len(),
{
    if s.len() > 0 && is_ws(s[0]) {
        lemma_trim_start_len(s.drop_first());
    }
}

/// A word is a non-empty prefix of a text that starts with a non-space.
pub proof fn lemma_take_until_ws_len(s: Seq<char>)
    ensures
        take_until_ws(s).len() <= s.len(),
        s.len() > 0 && !is_ws(s[0]) ==> take_until_ws(s).len() >= 1,
        take_until_ws(s) == s.take(take_until_ws(s).len() as int),
    decreases s.len(),
{
    if s.len() > 0 && !is_ws(s[0]) {
        lemma_take_until_ws_len(s.drop_first());
        assert(take_until_ws(s) =~= s.take(take_until_ws(s).len() as int));
    }
}

/// The whitespace-separated words of `s` (`str::split_whitespace`).
pub open spec fn words(s: Seq<char>) -> Seq<Seq<char>>
    decreases s.len(),
{
    let t = trim_start(s);
    if t.len() == 0 {
        Seq::empty()
    } else {
        proof {
            lemma_trim_start_len(s);
            lemma_take_until_ws_len(t);
        }
        let w = take_until_ws(t);
        seq![w] + words(t.skip(w.len() as int))
    }
}

/// The words of `s[start..end]`.
pub fn split_words(s: &Vec<char>, start: usize, end: usize) -> (r: Vec<Vec<char>>)
    requires
        start <= end <= s@.len(),
    ensures
        crate::text::views(r@) == words(s@.subrange(start as int, end as int)),
{
    let mut out: Vec<Vec<char>> = Vec::new();
    let mut pos = start;
    while pos < end
        invariant
            start <= pos <= end <= s@.len(),
            words(s@.subrange(start as int, end as int)) == crate::text::views(out@) + words(s@.subrange(pos as int, end as int)),
        decreases end - pos,
    {
        let a = crate::text::trim_start_index(s, pos, end);
        if a == end {
            proof {
                assert(trim_start(s@.subrange(pos as int, end as int)).len() == 0);
                assert(words(s@.subrange(pos as int, end as int)) =~= Seq::<Seq<char>>::empty());
                assert(s@.subrange(end as int, end as int) =~= Seq::<char>::empty());
                assert(trim_start(Seq::<char>::empty()) =~= Seq::<char>::empty());
                assert(words(s@.subrange(end as int, end as int)) =~= Seq::<Seq<char>>::empty());
            }
            pos = end;
        } else {
            let mut b = a;
            while b < end && !crate::text::is_ws_char(s[b])
                invariant
                    a <= b <= end <= s@.len(),
                    take_until_ws(s@.subrange(a as int, end as int)) == s@.subrange(a as int, b as int)
                        + take_until_ws(s@.subrange(b as int, end as int)),
                decreases end - b,
            {
                assert(s@.subrange(b as int, end as int).drop_first() =~= s@.subrange(b + 1, end as int));
                assert(s@.subrange(a as int, b + 1) =~= s@.subrange(a as int, b as int) + seq![s@[b as int]]);
                b = b + 1;
            }
            let ghost t = s@.subrange(a as int, end as int);
            proof {
                assert(take_until_ws(s@.subrange(b as int, end as int)) =~= Seq::<char>::empty());
                assert(take_until_ws(t) =~= s@.subrange(a as int, b as int));
                assert(t.skip(b - a) =~= s@.subrange(b as int, end as int));
                assert(words(s@.subrange(pos as int, end as int)) =~= seq![s@.subrange(a as int, b as int)]
                    + words(s@.subrange(b as int, end as int)));
            }
            let w = subvec(s, a, b);
            let ghost before = out@;
            out.push(w);
            proof {
                assert(crate::text::views(out@) =~= crate::text::views(before).push(s@.subrange(a as int, b as int)));
            }
            pos = b;
        }
    }
    proof {
        assert(s@.subrange(end as int, end as int) =~= Seq::<char>::empty());
        assert(trim_start(Seq::<char>::empty()) =~= Seq::<char>::empty());
        assert(words(s@.subrange(end as int, end as int)) =~= Seq::<Seq<char>>::empty());
        assert(crate::text::views(out@) + Seq::<Seq<char>>::empty() =~= crate::text::views(out@));
    }
    out
}

/// What `String::from_utf8_lossy` makes of some bytes.
pub uninterp spec fn utf8_lossy(bytes: Seq<u8>) -> Seq<char>;

/// Bytes that are all ASCII.
pub open spec fn all_ascii(bytes: Seq<u8>) -> bool {
    forall|i: int| 0 <= i < bytes.len() ==> bytes[i] < 128
}

/// `String::from_utf8_lossy`: the bytes decoded as UTF-8, invalid sequences
/// replaced by U+FFFD. The contract names the outcome and states the one case
/// std's documentation makes plain: ASCII bytes decode one character each.
#[verifier::external_body]
fn decode_lossy(bytes: &[u8]) -> (s: String)
    ensures
        s@ == utf8_lossy(bytes@),
        all_ascii(bytes@) ==> s@.len() == bytes@.len() && forall|i: int| 0 <= i < bytes@.len() ==> s@[i] as u32 == bytes@[i] as u32,
{
    String::from_utf8_lossy(bytes).into_owned()
}

/// Index of the first newline byte.
pub open spec fn newline_at(bytes: Seq<u8>) -> Option<int> {
    if exists|i: int| 0 <= i < bytes.len() && bytes[i] == 10 {
        Some(choose|i: int| 0 <= i < bytes.len() && bytes[i] == 10 && forall|j: int| 0 <= j < i ==> bytes[j] != 10)
    } else {
        None
    }
}

/// How a script's interpreter is to be found.
#[derive(Debug)]
pub enum ShebangPlan {
    /// No shebang: a binary or a plain script.
    NoShebang,
    /// The shebang cannot be used, and why.
    Invalid(String),
    /// Look `name` up on the search path, then run it with `args`
    /// (`via_env`: it was named through `/usr/bin/env`).
    Lookup { name: String, args: Vec<String>, via_env: bool },
    /// Run the interpreter at `program` (a path) with `args`, if executable.
    Direct { program: String, args: Vec<String> },
}

/// Error for a first line without a newline.
pub open spec fn no_newline_message() -> Seq<char> {
    "dsh 脚本首行无换行，无法解析解释器"@
}

/// Error for an empty shebang.
pub open spec fn empty_shebang_message() -> Seq<char> {
    "dsh 的 shebang 为空"@
}

/// Error for `env -S` without a command.
pub open spec fn env_s_message() -> Seq<char> {
    "dsh 的 shebang `env -S` 缺少命令名"@
}

/// The plan for a shebang line's words after `#!`.
pub open spec fn plan_of_words(toks: Seq<Seq<char>>) -> (Option<Seq<char>>, Seq<char>, Seq<Seq<char>>, bool, bool) {
    // (error, program/name, args, lookup?, via_env)
    if toks.len() == 0 {
        (Some(empty_shebang_message()), Seq::empty(), Seq::empty(), false, false)
    } else {
        let prog = toks[0];
        let args = toks.skip(1);
        if prog == "/usr/bin/env"@ || prog == "env"@ {
            let first = if args.len() > 0 { args[0] } else { Seq::empty() };
            if first == "-S"@ {
                if args.len() > 1 {
                    (None, args[1], args.skip(2), true, true)
                } else {
                    (Some(env_s_message()), Seq::empty(), Seq::empty(), false, false)
                }
            } else {
                (None, first, if args.len() > 0 { args.skip(1) } else { Seq::empty() }, true, true)
            }
        } else if prog.contains('/') {
            (None, prog, args, false, false)
        } else {
            (None, prog, args, true, false)
        }
    }
}

/// The plan read from the first bytes of a script: `None` when it has no
/// shebang, else (error, program or name, args, lookup?, via_env).
pub open spec fn shebang_spec(head: Seq<u8>) -> Option<(Option<Seq<char>>, Seq<char>, Seq<Seq<char>>, bool, bool)> {
    match newline_at(head) {
        None => Some((Some(no_newline_message()), Seq::empty(), Seq::empty(), false, false)),
        Some(idx) => {
            let rest = trim_start(utf8_lossy(head.take(idx)));
            if !crate::text::starts_with(rest, "#!"@) {
                None
            } else {
                Some(plan_of_words(words(rest.skip(2))))
            }
        },
    }
}

/// The views of a list of strings.
pub open spec fn strs(v: Seq<String>) -> Seq<Seq<char>> {
    Seq::new(v.len(), |i: int| v[i]@)
}

/// `plan` is what [`shebang_spec`] says of `head`.
pub open spec fn plan_matches(plan: ShebangPlan, head: Seq<u8>) -> bool {
    match (plan, shebang_spec(head)) {
        (ShebangPlan::NoShebang, None) => true,
        (ShebangPlan::Invalid(e), Some((Some(m), _, _, _, _))) => e@ == m,
        (ShebangPlan::Lookup { name, args, via_env }, Some((None, n, a, true, v))) =>
            name@ == n && strs(args@) == a && via_env == v,
        (ShebangPlan::Direct { program, args }, Some((None, p, a, false, _))) =>
            program@ == p && strs(args@) == a,
        _ => false,
    }
}

/// The views after a push.
pub proof fn lemma_strs_push(v: Seq<String>, x: String)
    ensures
        strs(v.push(x)) == strs(v).push(x@),
{
    assert(strs(v.push(x)) =~= strs(v).push(x@));
}

/// Strings from character vectors.
fn strings_of_chars(v: &Vec<Vec<char>>, from: usize) -> (r: Vec<String>)
    requires
        from <= v@.len(),
    ensures
        strs(r@) == crate::text::views(v@).skip(from as int),
{
    let mut out: Vec<String> = Vec::new();
    let mut i = from;
    while i < v.len()
        invariant
            from <= i <= v@.len(),
            strs(out@) == crate::text::views(v@).subrange(from as int, i as int),
        decreases v.len() - i,
    {
        let ghost before = out@;
        out.push(string_from_chars(&v[i]));
        assert(strs(out@) =~= strs(before).push(v@[i as int]@));
        assert(crate::text::views(v@).subrange(from as int, i + 1)
            =~= crate::text::views(v@).subrange(from as int, i as int).push(v@[i as int]@));
        i = i + 1;
    }
    assert(crate::text::views(v@).subrange(from as int, v@.len() as int) =~= crate::text::views(v@).skip(from as int));
    out
}

/// Whether `c` occurs in `s`.
fn contains_char(s: &Vec<char>, c: char) -> (b: bool)
    ensures
        b == s@.contains(c),
{
    let mut i: usize = 0;
    while i < s.len()
        invariant
            i <= s@.len(),
            forall|j: int| 0 <= j < i ==> s@[j] != c,
        decreases s.len() - i,
    {
        if s[i] == c {
            return true;
        }
        i = i + 1;
    }
    false
}

/// Whether two character vectors are equal.
fn chars_eq(a: &Vec<char>, b: &Vec<char>) -> (r: bool)
    ensures
        r == (a@ == b@),
{
    if a.len() != b.len() {
        return false;
    }
    let mut i: usize = 0;
    while i < a.len()
        invariant
            a@.len() == b@.len(),
            i <= a@.len(),
            forall|j: int| 0 <= j < i ==> a@[j] == b@[j],
        decreases a.len() - i,
    {
        if a[i] != b[i] {
            return false;
        }
        i = i + 1;
    }
    assert(a@ =~= b@);
    true
}

/// How to find the interpreter of a script whose first bytes are `head`.
pub fn parse_shebang(head: &Vec<u8>) -> (plan: ShebangPlan)
    ensures
        plan_matches(plan, head@),
{
    let mut idx: usize = 0;
    while idx < head.len() && head[idx] != 10u8
        invariant
            idx <= head@.len(),
            forall|j: int| 0 <= j < idx ==> head@[j] != 10,
        decreases head.len() - idx,
    {
        idx = idx + 1;
    }
    if idx == head.len() {
        assert(newline_at(head@) is None);
        return ShebangPlan::Invalid(String::from_str("dsh 脚本首行无换行，无法解析解释器"));
    }
    proof {
        assert(head@[idx as int] == 10);
        let i = newline_at(head@)->Some_0;
        assert(0 <= i < head@.len() && head@[i] == 10 && forall|j: int| 0 <= j < i ==> head@[j] != 10);
        assert(i == idx as int);
    }
    let line_bytes = vstd::slice::slice_subrange(head.as_slice(), 0, idx);
    let ghost line_view = head@.take(idx as int);
    assert(line_bytes@ == line_view);
    let line = decode_lossy(line_bytes);
    let chars = chars_of(line.as_str());
    let a = crate::text::trim_start_index(&chars, 0, chars.len());
    assert(chars@.subrange(0, chars@.len() as int) =~= chars@);
    let ghost rest = chars@.subrange(a as int, chars@.len() as int);
    let marker = lit("#!");
    if !crate::text::starts_with_at(&chars, a, &marker) {
        assert(chars@.skip(a as int) =~= rest);
        return ShebangPlan::NoShebang;
    }
    assert(chars@.skip(a as int) =~= rest);
    proof { reveal_strlit("#!"); }
    assert(marker@.len() == 2);
    let toks = split_words(&chars, a + 2, chars.len());
    let ghost tv = crate::text::views(toks@);
    assert(rest.skip(2) =~= chars@.subrange(a + 2, chars@.len() as int));
    if toks.len() == 0 {
        return ShebangPlan::Invalid(String::from_str("dsh 的 shebang 为空"));
    }
    let prog = &toks[0];
    assert(tv[0] == prog@);
    let env_path = lit("/usr/bin/env");
    let env_name = lit("env");
    if chars_eq(prog, &env_path) || chars_eq(prog, &env_name) {
        let dash_s = lit("-S");
        let first_is_s = toks.len() > 1 && chars_eq(&toks[1], &dash_s);
        if toks.len() > 1 {
            assert(tv.skip(1)[0] == tv[1]);
        }
        if first_is_s {
            if toks.len() > 2 {
                let name = string_from_chars(&toks[2]);
                let args = strings_of_chars(&toks, 3);
                assert(tv.skip(1)[1] == tv[2]);
                assert(tv.skip(1).skip(2) =~= tv.skip(3));
                ShebangPlan::Lookup { name, args, via_env: true }
            } else {
                ShebangPlan::Invalid(String::from_str("dsh 的 shebang `env -S` 缺少命令名"))
            }
        } else {
            if toks.len() > 1 {
                let name = string_from_chars(&toks[1]);
                let args = strings_of_chars(&toks, 2);
                assert(tv.skip(1).skip(1) =~= tv.skip(2));
                ShebangPlan::Lookup { name, args, via_env: true }
            } else {
                let args: Vec<String> = Vec::new();
                assert(strs(args@) =~= Seq::<Seq<char>>::empty());
                proof { reveal_strlit("-S"); }
                ShebangPlan::Lookup { name: String::new(), args, via_env: true }
            }
        }
    } else if contains_char(prog, '/') {
        let program = string_from_chars(prog);
        let args = strings_of_chars(&toks, 1);
        ShebangPlan::Direct { program, args }
    } else {
        let name = string_from_chars(prog);
        let args = strings_of_chars(&toks, 1);
        ShebangPlan::Lookup { name, args, via_env: false }
    }
}

/// Error for an interpreter named through `env` that is not on the path.
pub open spec fn env_missing_message(name: Seq<char>) -> Seq<char> {
    "找到 dsh 脚本，但其解释器 `"@ + name + "` 不在 PATH"@
}

/// Error for an interpreter path that is missing or not executable.
pub open spec fn not_executable_message(prog: Seq<char>) -> Seq<char> {
    "dsh 脚本的解释器 "@ + prog + " 不存在或不可执行"@
}

/// Error for a bare interpreter name that is not on the path.
pub open spec fn bare_missing_message(name: Seq<char>) -> Seq<char> {
    "dsh 脚本的解释器 `"@ + name + "` 不在 PATH"@
}

/// The interpreter command line a plan comes to, given where the lookup
/// found the interpreter (`found`) and whether a direct path is executable.
pub open spec fn plan_outcome(plan: ShebangPlan, found: Option<Seq<char>>, executable: bool) -> Option<Result<Seq<Seq<char>>, Seq<char>>> {
    match plan {
        ShebangPlan::NoShebang => None,
        ShebangPlan::Invalid(e) => Some(Err(e@)),
        ShebangPlan::Lookup { name, args, via_env } => match found {
            Some(p) => Some(Ok(seq![p] + strs(args@))),
            None => Some(Err(if via_env { env_missing_message(name@) } else { bare_missing_message(name@) })),
        },
        ShebangPlan::Direct { program, args } => if executable {
            Some(Ok(seq![program@] + strs(args@)))
        } else {
            Some(Err(not_executable_message(program@)))
        },
    }
}

/// `a` followed by `b`.
fn concat3(a: &str, b: &str, c: &str) -> (r: String)
    ensures
        r@ == a@ + b@ + c@,
{
    let ab = crate::text::concat_str(a, b);
    crate::text::concat_str(ab.as_str(), c)
}

/// The interpreter command line of a script's shebang, once the lookup of
/// a named interpreter (`found`) or the check of an interpreter path
/// (`executable`) was made: `None` without a shebang, else the command line
/// or why the script cannot run.
pub fn shebang_outcome(plan: ShebangPlan, found: Option<String>, executable: bool) -> (r: Option<Result<Vec<String>, String>>)
    ensures
        match (r, plan_outcome(plan, crate::install::opt_string_view(found), executable)) {
            (None, None) => true,
            (Some(Ok(v)), Some(Ok(w))) => strs(v@) == w,
            (Some(Err(e)), Some(Err(m))) => e@ == m,
            _ => false,
        },
{
    match plan {
        ShebangPlan::NoShebang => None,
        ShebangPlan::Invalid(e) => Some(Err(e)),
        ShebangPlan::Lookup { name, args, via_env } => match found {
            Some(p) => {
                let mut all: Vec<String> = Vec::new();
                let ghost pv = p@;
                all.push(p);
                let ghost first = all@;
                let mut tail = args;
                let ghost av = strs(tail@);
                all.append(&mut tail);
                assert(strs(all@) =~= seq![pv] + av);
                Some(Ok(all))
            },
            None => {
                if via_env {
                    Some(Err(concat3("找到 dsh 脚本，但其解释器 `", name.as_str(), "` 不在 PATH")))
                } else {
                    Some(Err(concat3("dsh 脚本的解释器 `", name.as_str(), "` 不在 PATH")))
                }
            },
        },
        ShebangPlan::Direct { program, args } => {
            if executable {
                let mut all: Vec<String> = Vec::new();
                let ghost pv = program@;
                all.push(program);
                let mut tail = args;
                let ghost av = strs(tail@);
                all.append(&mut tail);
                assert(strs(all@) =~= seq![pv] + av);
                Some(Ok(all))
            } else {
                Some(Err(concat3("dsh 脚本的解释器 ", program.as_str(), " 不存在或不可执行")))
            }
        },
    }
}

/// Checks that a found `dsh` script can run: its shebang (`outcome`, from
/// [`shebang_outcome`]) must have resolved. Scripts without a shebang
/// (binaries, plain scripts) pass with no interpreter.
pub fn validate_script(shim: String, outcome: Option<Result<Vec<String>, String>>) -> (r: Result<DshExec, String>)
    ensures
        match outcome {
            Some(Err(reason)) => r == Err::<DshExec, String>(reason),
            Some(Ok(v)) => r == Ok::<DshExec, String>(DshExec::UnixSh { shim: shim, interpreter: Some(v) }),
            None => r == Ok::<DshExec, String>(DshExec::UnixSh { shim: shim, interpreter: None }),
        },
{
    match outcome {
        Some(Err(reason)) => Err(reason),
        Some(Ok(v)) => Ok(DshExec::UnixSh { shim, interpreter: Some(v) }),
        None => Ok(DshExec::UnixSh { shim, interpreter: None }),
    }
}

/// `name` under each directory of `paths`, in order.
pub open spec fn candidates_spec(name: Seq<char>, paths: Seq<Seq<char>>) -> Seq<Seq<char>> {
    Seq::new(paths.len(), |i: int| crate::state::join_path(paths[i], name))
}

/// Where to look for `name`: under each directory of `paths`, in order.
pub fn lookup_candidates(name: &str, paths: &Vec<String>) -> (r: Vec<String>)
    ensures
        strs(r@) == candidates_spec(name@, strs(paths@)),
{
    let mut out: Vec<String> = Vec::new();
    let mut i: usize = 0;
    while i < paths.len()
        invariant
            i <= paths@.len(),
            strs(out@) == candidates_spec(name@, strs(paths@)).take(i as int),
        decreases paths.len() - i,
    {
        let ghost before = out@;
        let c = crate::state::join_path_str(paths[i].as_str(), name);
        out.push(c);
        proof {
            lemma_strs_push(before, c);
            assert(strs(out@) =~= candidates_spec(name@, strs(paths@)).take(i + 1));
        }
        i = i + 1;
    }
    assert(candidates_spec(name@, strs(paths@)).take(paths@.len() as int) =~= candidates_spec(name@, strs(paths@)));
    out
}

/// The first candidate marked usable.
pub open spec fn first_usable(cands: Seq<Seq<char>>, usable: Seq<bool>) -> Option<Seq<char>>
    decreases cands.len(),
{
    if cands.len() == 0 || usable.len() == 0 {
        None
    } else if usable[0] {
        Some(cands[0])
    } else {
        first_usable(cands.drop_first(), usable.drop_first())
    }
}

/// The first executable `name` found in `paths`: `usable[i]` tells whether
/// `name` under `paths[i]` is an executable file.
pub fn lookup_in_paths(name: &str, paths: &Vec<String>, usable: &Vec<bool>) -> (r: Option<String>)
    requires
        usable@.len() == paths@.len(),
    ensures
        crate::install::opt_string_view(r) == first_usable(candidates_spec(name@, strs(paths@)), usable@),
{
    let cands = lookup_candidates(name, paths);
    let ghost cs = candidates_spec(name@, strs(paths@));
    let mut i: usize = 0;
    assert(cs.skip(0) =~= cs);
    assert(usable@.skip(0) =~= usable@);
    while i < cands.len()
        invariant
            i <= cands@.len(),
            cands@.len() == usable@.len(),
            cs == candidates_spec(name@, strs(paths@)),
            strs(cands@) == cs,
            first_usable(cs, usable@) == first_usable(cs.skip(i as int), usable@.skip(i as int)),
        decreases cands.len() - i,
    {
        assert(cs.skip(i as int)[0] == cs[i as int]);
        assert(usable@.skip(i as int)[0] == usable@[i as int]);
        if usable[i] {
            assert(strs(cands@)[i as int] == cands@[i as int]@);
            assert(cs.skip(i as int).len() > 0 && usable@.skip(i as int).len() > 0);
            return Some(cands[i].clone());
        }
        assert(cs.skip(i as int).drop_first() =~= cs.skip(i + 1));
        assert(usable@.skip(i as int).drop_first() =~= usable@.skip(i + 1));
        i = i + 1;
    }
    None
}

/// The outcome of one `dsh` candidate: `None` when no such file exists,
/// else the result of validating it.
pub open spec fn first_found(outcomes: Seq<Option<Result<DshExec, String>>>) -> Option<DshExec>
    decreases outcomes.len(),
{
    if outcomes.len() == 0 {
        None
    } else {
        match outcomes[0] {
            Some(Ok(e)) => Some(e),
            _ => first_found(outcomes.drop_first()),
        }
    }
}

/// The reason given by the first candidate that failed validation.
pub open spec fn first_reason(outcomes: Seq<Option<Result<DshExec, String>>>) -> Option<Seq<char>>
    decreases outcomes.len(),
{
    if outcomes.len() == 0 {
        None
    } else {
        match outcomes[0] {
            Some(Err(r)) => Some(r@),
            _ => first_reason(outcomes.drop_first()),
        }
    }
}

/// The launcher among the `dsh` candidates, searched in order (the app's
/// own path, then the login shell's): the first that validates; otherwise
/// not found, with the reason of the first candidate that failed (empty
/// when none did).
pub fn resolve_dsh(outcomes: Vec<Option<Result<DshExec, String>>>) -> (r: Result<DshExec, DshNotFound>)
    ensures
        match r {
            Ok(e) => first_found(outcomes@) == Some(e),
            Err(nf) => first_found(outcomes@) is None && nf.0@ == match first_reason(outcomes@) {
                Some(m) => m,
                None => Seq::<char>::empty(),
            },
        },
{
    let ghost all = outcomes@;
    let mut rest = outcomes;
    let mut reason: Option<String> = None;
    let ghost mut k: int = 0;
    assert(all.skip(0) =~= all);
    while rest.len() > 0
        invariant
            0 <= k <= all.len(),
            all == outcomes@,
            rest@ == all.skip(k),
            first_found(all) == first_found(all.skip(k)),
            first_reason(all) == match reason {
                Some(r) => Some(r@),
                None => first_reason(all.skip(k)),
            },
        decreases rest@.len(),
    {
        assert(all.skip(k).len() > 0);
        let o = rest.remove(0);
        assert(all.skip(k)[0] == o);
        assert(all.skip(k).drop_first() =~= all.skip(k + 1));
        match o {
            Some(Ok(e)) => {
                return Ok(e);
            },
            Some(Err(why)) => {
                if reason.is_none() {
                    reason = Some(why);
                }
            },
            None => {},
        }
        proof { k = k + 1; }
    }
    match reason {
        Some(r) => Err(DshNotFound(r)),
        None => Err(DshNotFound(String::new())),
    }
}

/// The file names tried in each directory of a Windows `PATH`, in order.
pub open spec fn windows_names() -> Seq<Seq<char>> {
    seq!["dsh.cmd"@, "dsh"@, "dsh.ps1"@, "dsh.exe"@]
}

/// The `dsh` shims to try on a Windows `PATH`: each name of
/// [`windows_names`] in each directory, directory by directory.
pub fn windows_candidates(dirs: &Vec<String>) -> (r: Vec<String>)
    ensures
        r@.len() == 4 * dirs@.len(),
        forall|d: int, n: int| 0 <= d < dirs@.len() && 0 <= n < 4 ==>
            #[trigger] r@[4 * d + n]@ == crate::state::join_path(dirs@[d]@, windows_names()[n]),
{
    let mut out: Vec<String> = Vec::new();
    let mut d: usize = 0;
    while d < dirs.len()
        invariant
            d <= dirs@.len(),
            out@.len() == 4 * d,
            forall|x: int, n: int| 0 <= x < d && 0 <= n < 4 ==>
                #[trigger] out@[4 * x + n]@ == crate::state::join_path(dirs@[x]@, windows_names()[n]),
        decreases dirs.len() - d,
    {
        let ghost before = out@;
        out.push(crate::state::join_path_str(dirs[d].as_str(), "dsh.cmd"));
        out.push(crate::state::join_path_str(dirs[d].as_str(), "dsh"));
        out.push(crate::state::join_path_str(dirs[d].as_str(), "dsh.ps1"));
        out.push(crate::state::join_path_str(dirs[d].as_str(), "dsh.exe"));
        assert forall|x: int, n: int| 0 <= x < d + 1 && 0 <= n < 4 implies
            #[trigger] out@[4 * x + n]@ == crate::state::join_path(dirs@[x]@, windows_names()[n]) by {
            if x < d {
                assert(out@[4 * x + n] == before[4 * x + n]);
            }
        }
        d = d + 1;
    }
    out
}

/// The directories searched for `dsh` on Unix: the app's `PATH`, then
/// `~/.local/bin` when the home directory is known.
pub fn search_dirs(path_dirs: &Vec<String>, home: Option<&str>) -> (r: Vec<String>)
    ensures
        strs(r@) == match home {
            Some(h) => strs(path_dirs@).push(crate::state::join_path(h@, ".local/bin"@)),
            None => strs(path_dirs@),
        },
{
    let mut out: Vec<String> = Vec::new();
    let mut i: usize = 0;
    while i < path_dirs.len()
        invariant
            i <= path_dirs@.len(),
            strs(out@) == strs(path_dirs@).take(i as int),
        decreases path_dirs.len() - i,
    {
        let ghost before = out@;
        let c = path_dirs[i].clone();
        out.push(c);
        proof {
            lemma_strs_push(before, c);
            assert(strs(out@) =~= strs(path_dirs@).take(i + 1));
        }
        i = i + 1;
    }
    assert(strs(path_dirs@).take(path_dirs@.len() as int) =~= strs(path_dirs@));
    match home {
        Some(h) => {
            let ghost before = out@;
            out.push(crate::state::join_path_str(h, ".local/bin"));
            assert(strs(out@) =~= strs(before).push(crate::state::join_path(h@, ".local/bin"@)));
        },
        None => {},
    }
    out
}

/// The directories of a `PATH`-style list (`:`-separated).
pub fn split_path_list(list: &str) -> (r: Vec<String>)
    ensures
        strs(r@) == crate::text::split_on(list@, ':'),
{
    let chars = chars_of(list);
    let parts = crate::text::split_chars(&chars, 0, chars.len(), ':');
    assert(chars@.subrange(0, chars@.len() as int) =~= chars@);
    let mut out: Vec<String> = Vec::new();
    let mut i: usize = 0;
    while i < parts.len()
        invariant
            i <= parts@.len(),
            crate::text::views(parts@) == crate::text::split_on(list@, ':'),
            strs(out@) == crate::text::views(parts@).take(i as int),
        decreases parts.len() - i,
    {
        let ghost before = out@;
        let c = string_from_chars(&parts[i]);
        out.push(c);
        proof {
            lemma_strs_push(before, c);
            assert(strs(out@) =~= crate::text::views(parts@).take(i + 1));
        }
        i = i + 1;
    }
    assert(crate::text::views(parts@).take(parts@.len() as int) =~= crate::text::views(parts@));
    out
}

/// The text of a shell probe: its last line, trimmed, when not empty (rc
/// files may print noise first; the probed command prints last).
pub open spec fn probe_text(out: Seq<char>) -> Option<Seq<char>> {
    let lines = crate::text::split_on(out, '\n');
    let last = crate::text::trim(lines.last());
    if last.len() == 0 { None } else { Some(last) }
}

/// The answer of a shell probe, from what the shell printed.
pub fn shell_probe_text(out: &str) -> (r: Option<String>)
    ensures
        crate::install::opt_string_view(r) == probe_text(out@),
{
    let chars = chars_of(out);
    let parts = crate::text::split_chars(&chars, 0, chars.len(), '\n');
    assert(chars@.subrange(0, chars@.len() as int) =~= chars@);
    proof { crate::text::lemma_split_nonempty(out@, '\n'); }
    let last = &parts[parts.len() - 1];
    let (a, b) = crate::text::trim_bounds(last, 0, last.len());
    assert(last@.subrange(0, last@.len() as int) =~= last@);
    if a == b {
        None
    } else {
        Some(crate::text::substring(last, a, b))
    }
}

/// The login shell's `PATH`: the first probe (`-lic`, then `-lc`, then
/// `-c`) that printed an answer.
pub open spec fn first_probe_answer(outputs: Seq<Option<Seq<char>>>) -> Option<Seq<char>>
    decreases outputs.len(),
{
    if outputs.len() == 0 {
        None
    } else {
        match outputs[0] {
            Some(o) => match probe_text(o) {
                Some(t) => Some(t),
                None => first_probe_answer(outputs.drop_first()),
            },
            None => first_probe_answer(outputs.drop_first()),
        }
    }
}

/// The views of optional strings.
pub open spec fn opt_strs(v: Seq<Option<String>>) -> Seq<Option<Seq<char>>> {
    Seq::new(v.len(), |i: int| crate::install::opt_string_view(v[i]))
}

/// `PATH` as the user's login shell sees it, from the outputs of the probes
/// run with the flags of [`path_probe_flags`] in order (`None` for a probe
/// that could not run).
pub fn login_shell_path(outputs: &Vec<Option<String>>) -> (r: Option<String>)
    ensures
        crate::install::opt_string_view(r) == first_probe_answer(opt_strs(outputs@)),
{
    let ghost all = opt_strs(outputs@);
    let mut i: usize = 0;
    assert(all.skip(0) =~= all);
    while i < outputs.len()
        invariant
            i <= outputs@.len(),
            all == opt_strs(outputs@),
            first_probe_answer(all) == first_probe_answer(all.skip(i as int)),
        decreases outputs.len() - i,
    {
        assert(all.skip(i as int)[0] == crate::install::opt_string_view(outputs@[i as int]));
        assert(all.skip(i as int).drop_first() =~= all.skip(i + 1));
        match &outputs[i] {
            Some(o) => match shell_probe_text(o.as_str()) {
                Some(t) => return Some(t),
                None => {},
            },
            None => {},
        }
        i = i + 1;
    }
    None
}

/// The shell flags tried in turn to read the login shell's `PATH`.
pub fn path_probe_flags() -> (r: Vec<String>)
    ensures
        strs(r@) == seq!["-lic"@, "-lc"@, "-c"@],
{
    let mut v: Vec<String> = Vec::new();
    v.push(String::from_str("-lic"));
    v.push(String::from_str("-lc"));
    v.push(String::from_str("-c"));
    assert(strs(v@) =~= seq!["-lic"@, "-lc"@, "-c"@]);
    v
}

/// The arguments dsh is run with: `web --no-open --port <port>`.
pub open spec fn web_args(port: Seq<char>) -> Seq<Seq<char>> {
    seq!["web"@, "--no-open"@, "--port"@, port]
}

/// `v` with `web --no-open --port <port>` appended.
fn push_web_args(v: &mut Vec<String>, port: &str)
    ensures
        strs(final(v)@) == strs(old(v)@) + web_args(port@),
{
    v.push(String::from_str("web"));
    v.push(String::from_str("--no-open"));
    v.push(String::from_str("--port"));
    v.push(String::from_str(port));
    assert(strs(final(v)@) =~= strs(old(v)@) + web_args(port@));
}

/// The command line (program first) that starts dsh on Unix: through the
/// resolved interpreter, else the script itself when it is executable,
/// else through `sh`.
pub open spec fn unix_command_spec(shim: Seq<char>, interpreter: Option<Seq<Seq<char>>>, port: Seq<char>, shim_executable: bool) -> Seq<Seq<char>> {
    match interpreter {
        Some(v) => v + seq![shim] + web_args(port),
        None => if shim_executable { seq![shim] + web_args(port) } else { seq!["sh"@, shim] + web_args(port) },
    }
}

/// The command line (program first) that starts the Unix launcher `exec`
/// on `port`; `shim_executable` tells whether the script is executable.
pub fn unix_command_line(shim: &str, interpreter: &Option<Vec<String>>, port: &str, shim_executable: bool) -> (r: Vec<String>)
    ensures
        strs(r@) == unix_command_spec(shim@, match interpreter { Some(v) => Some(strs(v@)), None => None }, port@, shim_executable),
{
    let mut out: Vec<String> = Vec::new();
    match interpreter {
        Some(v) => {
            let mut i: usize = 0;
            while i < v.len()
                invariant
                    i <= v@.len(),
                    strs(out@) == strs(v@).take(i as int),
                decreases v.len() - i,
            {
                let ghost before = out@;
                let c = v[i].clone();
                out.push(c);
                proof {
                    lemma_strs_push(before, c);
                    assert(strs(out@) =~= strs(v@).take(i + 1));
                }
                i = i + 1;
            }
            assert(strs(v@).take(v@.len() as int) =~= strs(v@));
            out.push(String::from_str(shim));
        },
        None => {
            if !shim_executable {
                out.push(String::from_str("sh"));
            }
            out.push(String::from_str(shim));
        },
    }
    let ghost mid = out@;
    push_web_args(&mut out, port);
    assert(strs(out@) =~= unix_command_spec(shim@, match interpreter { Some(v) => Some(strs(v@)), None => None }, port@, shim_executable));
    out
}

/// The file name of a path (after its last `/` or `\`).
pub open spec fn file_name_of(p: Seq<char>) -> Seq<char>
    decreases p.len(),
{
    if p.len() == 0 {
        p
    } else if p.last() == '/' || p.last() == '\\' {
        Seq::empty()
    } else {
        file_name_of(p.drop_last()).push(p.last())
    }
}

/// A PowerShell shim: its file name has the extension `ps1`.
pub open spec fn is_ps1_spec(shim: Seq<char>) -> bool {
    let n = file_name_of(shim);
    crate::text::ends_with(n, ".ps1"@) && n.len() > 4
}

/// The command line (program first) that starts a Windows shim on `port`:
/// PowerShell for a `.ps1` shim, `cmd /C` otherwise.
pub open spec fn windows_command_spec(shim: Seq<char>, port: Seq<char>) -> Seq<Seq<char>> {
    if is_ps1_spec(shim) {
        seq!["powershell"@, "-NoProfile"@, "-ExecutionPolicy"@, "Bypass"@, "-File"@, shim] + web_args(port)
    } else {
        seq!["cmd"@, "/C"@, shim] + web_args(port)
    }
}

/// The command line (program first) that starts the Windows shim `shim` on `port`.
pub fn windows_command_line(shim: &str, port: &str) -> (r: Vec<String>)
    ensures
        strs(r@) == windows_command_spec(shim@, port@),
{
    let chars = chars_of(shim);
    let mut start: usize = chars.len();
    assert(chars@.take(chars@.len() as int) =~= chars@);
    assert(chars@.skip(chars@.len() as int) =~= Seq::<char>::empty());
    assert(file_name_of(chars@) + Seq::<char>::empty() =~= file_name_of(chars@));
    while start > 0 && chars[start - 1] != '/' && chars[start - 1] != '\\'
        invariant
            start <= chars@.len(),
            file_name_of(chars@) == file_name_of(chars@.take(start as int)) + chars@.skip(start as int),
        decreases start,
    {
        assert(chars@.take(start as int).drop_last() =~= chars@.take(start - 1));
        assert(chars@.skip(start - 1) =~= seq![chars@[start - 1]] + chars@.skip(start as int));
        assert(file_name_of(chars@.take(start as int)) == file_name_of(chars@.take(start - 1)).push(chars@[start - 1]));
        start = start - 1;
    }
    proof {
        if start > 0 {
            assert(chars@.take(start as int).last() == chars@[start - 1]);
        }
        assert(file_name_of(chars@.take(start as int)) =~= Seq::<char>::empty());
        assert(chars@.take(chars@.len() as int) =~= chars@);
    }
    let name = subvec(&chars, start, chars.len());
    assert(name@ =~= file_name_of(shim@));
    let suffix = lit(".ps1");
    proof { reveal_strlit(".ps1"); }
    let ps1 = name.len() > 4 && crate::text::starts_with_at(&name, name.len() - 4, &suffix);
    proof {
        if name@.len() > 4 {
            assert(name@.skip(name@.len() - 4).take(4) =~= name@.skip(name@.len() - 4));
        }
    }
    let mut out: Vec<String> = Vec::new();
    if ps1 {
        out.push(String::from_str("powershell"));
        out.push(String::from_str("-NoProfile"));
        out.push(String::from_str("-ExecutionPolicy"));
        out.push(String::from_str("Bypass"));
        out.push(String::from_str("-File"));
        out.push(String::from_str(shim));
    } else {
        out.push(String::from_str("cmd"));
        out.push(String::from_str("/C"));
        out.push(String::from_str(shim));
    }
    push_web_args(&mut out, port);
    assert(strs(out@) =~= windows_command_spec(shim@, port@));
    out
}

} // verus!
