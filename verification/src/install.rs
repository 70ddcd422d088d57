//! Installing plugins: reading a GitHub repository reference and the
//! results of an `npm` package search.
use vstd::prelude::*;
use crate::text::{chars_of, lit, strip_prefix_vec, split_once_vec, trim_vec, strip_all_suffix_vec,
    trim_char_vec, split_chars, string_from_chars, concat_str};

verus! {

/// Where a plugin is installed from.
#[derive(Debug, Clone, Copy, PartialEq, Eq, Structural)]
pub enum InstallSourceTab {
    /// npmjs (keyword search).
    Npm,
    /// A GitHub repository (exact reference).
    GitHub,
}

/// A GitHub repository reference.
#[derive(Debug)]
pub struct GitHubSpec {
    pub owner: String,
    pub repo: String,
    pub git_ref: Option<String>,
}

/// An ASCII letter or digit.
pub open spec fn is_ascii_alnum(c: char) -> bool {
    ('a' <= c && c <= 'z') || ('A' <= c && c <= 'Z') || ('0' <= c && c <= '9')
}

/// A valid owner or repository name: non-empty, ASCII letters, digits, `-`, `_`, `.`.
pub open spec fn valid_ident(s: Seq<char>) -> bool {
    s.len() > 0 && forall|i: int| 0 <= i < s.len() ==> (is_ascii_alnum(#[trigger] s[i]) || s[i] == '-' || s[i] == '_' || s[i] == '.')
}

/// `s` with the first of the known GitHub prefixes that it carries removed.
pub open spec fn strip_github_prefix(s: Seq<char>) -> Seq<char> {
    match crate::text::strip_prefix(s, "git@github.com:"@) {
        Some(r) => r,
        None => match crate::text::strip_prefix(s, "https://github.com/"@) {
            Some(r) => r,
            None => match crate::text::strip_prefix(s, "http://github.com/"@) {
                Some(r) => r,
                None => match crate::text::strip_prefix(s, "github:"@) {
                    Some(r) => r,
                    None => s,
                },
            },
        },
    }
}

/// (owner, repo, ref) read from a repository reference.
pub open spec fn github_spec_of(input: Seq<char>) -> Option<(Seq<char>, Seq<char>, Option<Seq<char>>)> {
    let s = crate::text::trim(input);
    if s.len() == 0 {
        None
    } else {
        let s = strip_github_prefix(s);
        let (path_part, hash_ref) = match crate::text::split_once(s, seq!['#']) {
            Some((p, r)) => (p, Some(crate::text::trim(r))),
            None => (s, None),
        };
        let (clean, tree_ref) = match crate::text::split_once(path_part, "/tree/"@) {
            Some((p, b)) => (p, Some(crate::text::trim(b))),
            None => (path_part, None),
        };
        let clean = crate::text::trim_char(crate::text::strip_all_suffix(clean, ".git"@), '/');
        let segs = crate::text::split_on(clean, '/');
        if segs.len() != 2 {
            None
        } else {
            let owner = crate::text::trim(segs[0]);
            let repo = crate::text::trim(segs[1]);
            if !valid_ident(owner) || !valid_ident(repo) {
                None
            } else {
                let r = match hash_ref { Some(h) => Some(h), None => tree_ref };
                let r = match r { Some(x) => if x.len() > 0 { Some(x) } else { None }, None => None };
                Some((owner, repo, r))
            }
        }
    }
}

/// Whether `v` is a valid owner or repository name.
fn valid_ident_exec(v: &Vec<char>) -> (b: bool)
    ensures
        b == valid_ident(v@),
{
    if v.len() == 0 {
        return false;
    }
    let mut i: usize = 0;
    while i < v.len()
        invariant
            i <= v@.len(),
            forall|k: int| 0 <= k < i ==> (is_ascii_alnum(#[trigger] v@[k]) || v@[k] == '-' || v@[k] == '_' || v@[k] == '.'),
        decreases v.len() - i,
    {
        let c = v[i];
        let ok = ('a' <= c && c <= 'z') || ('A' <= c && c <= 'Z') || ('0' <= c && c <= '9') || c == '-' || c == '_' || c == '.';
        if !ok {
            return false;
        }
        i = i + 1;
    }
    true
}

/// [`strip_github_prefix`] on a vector.
fn strip_github_prefix_vec(s: Vec<char>) -> (r: Vec<char>)
    ensures
        r@ == strip_github_prefix(s@),
{
    let p1 = lit("git@github.com:");
    let p2 = lit("https://github.com/");
    let p3 = lit("http://github.com/");
    let p4 = lit("github:");
    match strip_prefix_vec(&s, &p1) {
        Some(r) => r,
        None => match strip_prefix_vec(&s, &p2) {
            Some(r) => r,
            None => match strip_prefix_vec(&s, &p3) {
                Some(r) => r,
                None => match strip_prefix_vec(&s, &p4) {
                    Some(r) => r,
                    None => s,
                },
            },
        },
    }
}

impl GitHubSpec {
    /// Read an exact GitHub repository reference: `owner/repo`,
    /// `github:owner/repo[#ref]`, `https://github.com/owner/repo[.git]`,
    /// `https://github.com/owner/repo/tree/ref` or
    /// `git@github.com:owner/repo.git`. Anything else gives `None`.
    pub fn parse(input: &str) -> (r: Option<GitHubSpec>)
        ensures
            match (r, github_spec_of(input@)) {
                (Some(g), Some((o, p, f))) => g.owner@ == o && g.repo@ == p && match (g.git_ref, f) {
                    (Some(x), Some(y)) => x@ == y,
                    (None, None) => true,
                    _ => false,
                },
                (None, None) => true,
                _ => false,
            },
    {
        let v = chars_of(input);
        let s = trim_vec(&v);
        if s.len() == 0 {
            return None;
        }
        let s = strip_github_prefix_vec(s);
        let hash = vec!['#'];
        assert(hash@ =~= seq!['#']);
        let (path_part, hash_ref) = match split_once_vec(&s, &hash) {
            Some((p, r)) => (p, Some(trim_vec(&r))),
            None => (s, None),
        };
        let tree = lit("/tree/");
        let (clean, tree_ref) = match split_once_vec(&path_part, &tree) {
            Some((p, b)) => (p, Some(trim_vec(&b))),
            None => (path_part, None),
        };
        let git = lit(".git");
        let clean = strip_all_suffix_vec(&clean, &git);
        let clean = trim_char_vec(&clean, '/');
        let segs = split_chars(&clean, 0, clean.len(), '/');
        assert(clean@.subrange(0, clean@.len() as int) =~= clean@);
        if segs.len() != 2 {
            return None;
        }
        assert(crate::text::views(segs@)[0] == segs@[0]@);
        assert(crate::text::views(segs@)[1] == segs@[1]@);
        let owner = trim_vec(&segs[0]);
        let repo = trim_vec(&segs[1]);
        if !valid_ident_exec(&owner) || !valid_ident_exec(&repo) {
            return None;
        }
        let r = match hash_ref {
            Some(h) => Some(h),
            None => tree_ref,
        };
        let git_ref = match r {
            Some(x) => if x.len() > 0 {
                Some(string_from_chars(&x))
            } else {
                None
            },
            None => None,
        };
        Some(GitHubSpec { owner: string_from_chars(&owner), repo: string_from_chars(&repo), git_ref })
    }
}

} // verus!

verus! {

/// Specifier handed to `dsh plugin add` for a repository.
pub open spec fn install_specifier_of(owner: Seq<char>, repo: Seq<char>, r: Option<Seq<char>>) -> Seq<char> {
    match r {
        Some(x) => "github:"@ + owner + "/"@ + repo + "#"@ + x,
        None => "github:"@ + owner + "/"@ + repo,
    }
}

/// Page of a repository (at its ref, when one is given).
pub open spec fn web_url_of(owner: Seq<char>, repo: Seq<char>, r: Option<Seq<char>>) -> Seq<char> {
    match r {
        Some(x) => "https://github.com/"@ + owner + "/"@ + repo + "/tree/"@ + x,
        None => "https://github.com/"@ + owner + "/"@ + repo,
    }
}

/// The view of an optional string.
pub open spec fn opt_string_view(s: Option<String>) -> Option<Seq<char>> {
    match s {
        Some(x) => Some(x@),
        None => None,
    }
}

impl GitHubSpec {
    /// Specifier handed to `dsh plugin add`: `github:owner/repo[#ref]`.
    pub fn install_specifier(&self) -> (s: String)
        ensures
            s@ == install_specifier_of(self.owner@, self.repo@, opt_string_view(self.git_ref)),
    {
        let mut s = String::from_str("github:");
        s.append(self.owner.as_str());
        s.append("/");
        s.append(self.repo.as_str());
        match &self.git_ref {
            Some(r) => {
                s.append("#");
                s.append(r.as_str());
            },
            None => {},
        }
        s
    }

    /// Page of the repository in a browser: `https://github.com/owner/repo[/tree/ref]`.
    pub fn web_url(&self) -> (s: String)
        ensures
            s@ == web_url_of(self.owner@, self.repo@, opt_string_view(self.git_ref)),
    {
        let mut s = String::from_str("https://github.com/");
        s.append(self.owner.as_str());
        s.append("/");
        s.append(self.repo.as_str());
        match &self.git_ref {
            Some(r) => {
                s.append("/tree/");
                s.append(r.as_str());
            },
            None => {},
        }
        s
    }
}

/// One `npm` search result.
#[derive(Debug)]
pub struct NpmPkgResult {
    pub name: String,
    pub version: String,
    pub description: String,
    pub detail_url: String,
}

/// The view of a search result: (name, version, description, detail URL).
pub open spec fn pkg_view(p: NpmPkgResult) -> (Seq<char>, Seq<char>, Seq<char>, Seq<char>) {
    (p.name@, p.version@, p.description@, p.detail_url@)
}

/// Views of a list of search results.
pub open spec fn pkg_views(v: Seq<NpmPkgResult>) -> Seq<(Seq<char>, Seq<char>, Seq<char>, Seq<char>)> {
    Seq::new(v.len(), |i: int| pkg_view(v[i]))
}

/// The string member `key` of `j`, or `default`.
pub open spec fn str_or(j: crate::json::JsonV, key: Seq<char>, default: Seq<char>) -> Seq<char> {
    match crate::json::get(j, key) {
        Some(v) => match crate::json::as_str(v) {
            Some(s) => s,
            None => default,
        },
        None => default,
    }
}

/// The npm page of a package.
pub open spec fn npm_page(name: Seq<char>) -> Seq<char> {
    "https://www.npmjs.com/package/"@ + name
}

/// A result read from a package description, when it has a name.
pub open spec fn pkg_from(pkg: crate::json::JsonV) -> Option<(Seq<char>, Seq<char>, Seq<char>, Seq<char>)> {
    match crate::json::get(pkg, "name"@) {
        Some(n) => match crate::json::as_str(n) {
            Some(name) => Some((name, str_or(pkg, "version"@, "latest"@), str_or(pkg, "description"@, Seq::empty()), npm_page(name))),
            None => None,
        },
        None => None,
    }
}

/// A result read from a registry search object `{ "package": { … } }`;
/// its detail URL comes from `package.links.npm` when given.
pub open spec fn pkg_from_object(obj: crate::json::JsonV) -> Option<(Seq<char>, Seq<char>, Seq<char>, Seq<char>)> {
    match crate::json::get(obj, "package"@) {
        Some(pkg) => match pkg_from(pkg) {
            Some((name, version, description, page)) => {
                let url = match crate::json::get_opt(crate::json::get(pkg, "links"@), "npm"@) {
                    Some(u) => match crate::json::as_str(u) {
                        Some(s) => s,
                        None => page,
                    },
                    None => page,
                };
                Some((name, version, description, url))
            },
            None => None,
        },
        None => None,
    }
}

/// Results of a list of package descriptions, in order.
pub open spec fn pkgs_from(items: Seq<crate::json::JsonV>) -> Seq<(Seq<char>, Seq<char>, Seq<char>, Seq<char>)>
    decreases items.len(),
{
    if items.len() == 0 {
        Seq::empty()
    } else {
        match pkg_from(items.last()) {
            Some(p) => pkgs_from(items.drop_last()).push(p),
            None => pkgs_from(items.drop_last()),
        }
    }
}

/// Results of a list of registry search objects, in order.
pub open spec fn pkgs_from_objects(items: Seq<crate::json::JsonV>) -> Seq<(Seq<char>, Seq<char>, Seq<char>, Seq<char>)>
    decreases items.len(),
{
    if items.len() == 0 {
        Seq::empty()
    } else {
        match pkg_from_object(items.last()) {
            Some(p) => pkgs_from_objects(items.drop_last()).push(p),
            None => pkgs_from_objects(items.drop_last()),
        }
    }
}

/// Results read from `npm search --json` (a list), the registry search
/// API (`{ "objects": [...] }`) or `npm view --json` (one package).
pub open spec fn npm_results(text: Seq<char>) -> Seq<(Seq<char>, Seq<char>, Seq<char>, Seq<char>)> {
    match crate::json::json_parse(text) {
        Ok(v) => npm_results_of_value(v),
        Err(_) => Seq::empty(),
    }
}

/// Results read from a parsed search or view output.
pub open spec fn npm_results_of_value(v: crate::json::JsonV) -> Seq<(Seq<char>, Seq<char>, Seq<char>, Seq<char>)> {
    match v {
        crate::json::JsonV::Array(items) => pkgs_from(items),
        _ => match crate::json::get(v, "objects"@) {
            Some(crate::json::JsonV::Array(objs)) => pkgs_from_objects(objs),
            _ => match pkg_from(v) {
                Some(p) => seq![p],
                None => Seq::empty(),
            },
        },
    }
}

} // verus!

verus! {

/// The string member `key` of `j`, or `default`.
fn str_member_or(j: &crate::json::Json, key: &str, default: &str) -> (r: String)
    ensures
        r@ == str_or(j.jv(), key@, default@),
{
    let k = String::from_str(key);
    match crate::json::get_member(j, &k) {
        Some(v) => match crate::json::get_str(v) {
            Some(s) => s.clone(),
            None => String::from_str(default),
        },
        None => String::from_str(default),
    }
}

/// [`pkg_from`] on a value.
fn pkg_from_exec(pkg: &crate::json::Json) -> (r: Option<NpmPkgResult>)
    ensures
        match r {
            Some(p) => pkg_from(pkg.jv()) == Some(pkg_view(p)),
            None => pkg_from(pkg.jv()) is None,
        },
{
    let k = String::from_str("name");
    let name = match crate::json::get_member(pkg, &k) {
        Some(n) => match crate::json::get_str(n) {
            Some(s) => s.clone(),
            None => return None,
        },
        None => return None,
    };
    let version = str_member_or(pkg, "version", "latest");
    let description = str_member_or(pkg, "description", "");
    proof { reveal_strlit(""); }
    let detail_url = concat_str("https://www.npmjs.com/package/", name.as_str());
    Some(NpmPkgResult { name, version, description, detail_url })
}

/// [`pkg_from_object`] on a value.
fn pkg_from_object_exec(obj: &crate::json::Json) -> (r: Option<NpmPkgResult>)
    ensures
        match r {
            Some(p) => pkg_from_object(obj.jv()) == Some(pkg_view(p)),
            None => pkg_from_object(obj.jv()) is None,
        },
{
    let kp = String::from_str("package");
    let pkg = match crate::json::get_member(obj, &kp) {
        Some(p) => p,
        None => return None,
    };
    let mut p = match pkg_from_exec(pkg) {
        Some(p) => p,
        None => return None,
    };
    let kl = String::from_str("links");
    let kn = String::from_str("npm");
    match crate::json::get_member(pkg, &kl) {
        Some(links) => match crate::json::get_member(links, &kn) {
            Some(u) => match crate::json::get_str(u) {
                Some(s) => {
                    p.detail_url = s.clone();
                },
                None => {},
            },
            None => {},
        },
        None => {},
    }
    Some(p)
}

/// Parse the JSON printed by `npm search --json` (a list of packages), by
/// the registry search API (`{ "objects": [{ "package": … }] }`) or by
/// `npm view --json` (one package). Entries without a name are skipped; a
/// missing version reads `latest`, a missing description reads empty.
/// Malformed JSON gives no result.
pub fn parse_npm_search_json(json_str: &str) -> (r: Vec<NpmPkgResult>)
    ensures
        pkg_views(r@) == npm_results(json_str@),
{
    match crate::json::parse_json(json_str) {
        Ok(v) => npm_results_of(&v),
        Err(_) => {
            let results: Vec<NpmPkgResult> = Vec::new();
            assert(pkg_views(results@) =~= Seq::<(Seq<char>, Seq<char>, Seq<char>, Seq<char>)>::empty());
            results
        },
    }
}

/// The packages of a parsed `npm search --json`, registry search or
/// `npm view --json` output, as [`parse_npm_search_json`] reads them.
pub fn npm_results_of(val: &crate::json::Json) -> (r: Vec<NpmPkgResult>)
    ensures
        pkg_views(r@) == npm_results_of_value(val.jv()),
{
    let mut results: Vec<NpmPkgResult> = Vec::new();
    assert(pkg_views(results@) =~= Seq::<(Seq<char>, Seq<char>, Seq<char>, Seq<char>)>::empty());
    proof { crate::json::lemma_jv_unfold(*val); }
    match val {
        crate::json::Json::Array(items) => {
            let ghost all = crate::json::jvs(items@);
            let mut i: usize = 0;
            assert(all.take(0) =~= Seq::<crate::json::JsonV>::empty());
            while i < items.len()
                invariant
                    i <= items@.len(),
                    all == crate::json::jvs(items@),
                    pkg_views(results@) == pkgs_from(all.take(i as int)),
                decreases items.len() - i,
            {
                assert(all.take(i + 1).drop_last() =~= all.take(i as int));
                assert(all.take(i + 1).last() == items@[i as int].jv());
                match pkg_from_exec(&items[i]) {
                    Some(p) => {
                        let ghost before = results@;
                        results.push(p);
                        assert(pkg_views(results@) =~= pkg_views(before).push(pkg_view(p)));
                    },
                    None => {},
                }
                i = i + 1;
            }
            assert(all.take(items@.len() as int) =~= all);
            return results;
        },
        _ => {},
    }
    let ko = String::from_str("objects");
    match crate::json::get_member(val, &ko) {
        Some(o) => {
            proof { crate::json::lemma_jv_unfold(*o); }
            match o {
                crate::json::Json::Array(objs) => {
                    let ghost all = crate::json::jvs(objs@);
                    let mut i: usize = 0;
                    assert(all.take(0) =~= Seq::<crate::json::JsonV>::empty());
                    while i < objs.len()
                        invariant
                            i <= objs@.len(),
                            all == crate::json::jvs(objs@),
                            pkg_views(results@) == pkgs_from_objects(all.take(i as int)),
                        decreases objs.len() - i,
                    {
                        assert(all.take(i + 1).drop_last() =~= all.take(i as int));
                        assert(all.take(i + 1).last() == objs@[i as int].jv());
                        match pkg_from_object_exec(&objs[i]) {
                            Some(p) => {
                                let ghost before = results@;
                                results.push(p);
                                assert(pkg_views(results@) =~= pkg_views(before).push(pkg_view(p)));
                            },
                            None => {},
                        }
                        i = i + 1;
                    }
                    assert(all.take(objs@.len() as int) =~= all);
                    return results;
                },
                _ => {},
            }
        },
        None => {},
    }
    match pkg_from_exec(val) {
        Some(p) => {
            results.push(p);
            assert(pkg_views(results@) =~= seq![pkg_view(p)]);
        },
        None => {},
    }
    results
}

} // verus!

verus! {

/// A text with no whitespace at its ends is its own trim.
proof fn lemma_trim_noop(s: Seq<char>)
    requires
        s.len() > 0 ==> !crate::text::is_ws(s[0]) && !crate::text::is_ws(s.last()),
    ensures
        crate::text::trim(s) == s,
{
    assert(crate::text::trim_start(s) == s);
    assert(crate::text::trim_end(s) == s);
}

/// An identifier has no whitespace, `/` or `#`.
proof fn lemma_ident_chars(s: Seq<char>, i: int)
    requires
        valid_ident(s),
        0 <= i < s.len(),
    ensures
        !crate::text::is_ws(s[i]),
        s[i] != '/',
        s[i] != '#',
{
    assert(is_ascii_alnum(s[i]) || s[i] == '-' || s[i] == '_' || s[i] == '.');
}

/// The first `c` at or after `i` is found.
proof fn lemma_find_char(s: Seq<char>, c: char, i: int, j: int)
    requires
        0 <= i <= j < s.len(),
        s[j] == c,
        forall|k: int| i <= k < j ==> s[k] != c,
    ensures
        crate::text::find_from(s, seq![c], i) == Some(j),
    decreases j - i,
{
    if i < j {
        assert(!crate::text::occurs_at(s, seq![c], i)) by {
            assert(s.subrange(i, i + 1)[0] == s[i]);
        }
        lemma_find_char(s, c, i + 1, j);
    } else {
        assert(s.subrange(i, i + 1) =~= seq![c]);
    }
}

/// A needle that occurs nowhere is not found.
proof fn lemma_find_none(s: Seq<char>, needle: Seq<char>, i: int)
    requires
        forall|k: int| 0 <= k ==> !crate::text::occurs_at(s, needle, k),
    ensures
        crate::text::find_from(s, needle, i) is None,
    decreases s.len() + 1 - i,
{
    if !(i < 0 || i + needle.len() > s.len()) {
        lemma_find_none(s, needle, i + 1);
    }
}

/// A text without the separator is a single piece.
proof fn lemma_split_one(a: Seq<char>, sep: char)
    requires
        forall|k: int| 0 <= k < a.len() ==> a[k] != sep,
    ensures
        crate::text::split_on(a, sep) == seq![a],
    decreases a.len(),
{
    if a.len() > 0 {
        lemma_split_one(a.drop_last(), sep);
        assert(a.drop_last().push(a.last()) =~= a);
        assert(seq![a.drop_last()].update(0, a.drop_last().push(a.last())) =~= seq![a]);
    } else {
        assert(a =~= Seq::<char>::empty());
    }
}

/// `a <sep> b`, neither holding the separator, splits into `a` and `b`.
proof fn lemma_split_two(a: Seq<char>, b: Seq<char>, sep: char)
    requires
        forall|k: int| 0 <= k < a.len() ==> a[k] != sep,
        forall|k: int| 0 <= k < b.len() ==> b[k] != sep,
    ensures
        crate::text::split_on(a + seq![sep] + b, sep) == seq![a, b],
    decreases b.len(),
{
    if b.len() == 0 {
        lemma_split_one(a, sep);
        assert((a + seq![sep] + b).drop_last() =~= a);
        assert(b =~= Seq::<char>::empty());
        assert(seq![a].push(Seq::<char>::empty()) =~= seq![a, b]);
    } else {
        let b2 = b.drop_last();
        lemma_split_two(a, b2, sep);
        assert((a + seq![sep] + b).drop_last() =~= a + seq![sep] + b2);
        assert(b2.push(b.last()) =~= b);
        assert(seq![a, b2].update(1, b2.push(b.last())) =~= seq![a, b]);
    }
}

/// Reading back the specifier of a repository gives the repository again:
/// for valid names (the repository's not ending in `.git`, which reading
/// strips) and a ref that is non-empty and has no surrounding whitespace.
pub proof fn law_specifier_reads_back(owner: Seq<char>, repo: Seq<char>, r: Option<Seq<char>>)
    requires
        valid_ident(owner),
        valid_ident(repo),
        !crate::text::ends_with(repo, ".git"@),
        r matches Some(x) ==> x.len() > 0 && crate::text::trim(x) == x,
    ensures
        github_spec_of(install_specifier_of(owner, repo, r)) == Some((owner, repo, r)),
{
    reveal_strlit("github:");
    reveal_strlit("/");
    reveal_strlit("#");
    reveal_strlit("git@github.com:");
    reveal_strlit("https://github.com/");
    reveal_strlit("http://github.com/");
    reveal_strlit("/tree/");
    reveal_strlit(".git");
    let path = owner + seq!['/'] + repo;
    assert("/"@ =~= seq!['/']);
    assert("#"@ =~= seq!['#']);
    let input = install_specifier_of(owner, repo, r);
    let rest = match r { Some(x) => path + seq!['#'] + x, None => path };
    assert(input =~= "github:"@ + rest);
    // Facts about the path's characters.
    assert forall|k: int| 0 <= k < owner.len() implies owner[k] != '/' && owner[k] != '#' && !crate::text::is_ws(owner[k]) by {
        lemma_ident_chars(owner, k);
    }
    assert forall|k: int| 0 <= k < repo.len() implies repo[k] != '/' && repo[k] != '#' && !crate::text::is_ws(repo[k]) by {
        lemma_ident_chars(repo, k);
    }
    assert forall|k: int| 0 <= k < path.len() implies path[k] != '#' && !crate::text::is_ws(path[k])
        && (path[k] == '/' ==> k == owner.len()) by {
        if k < owner.len() {
            assert(path[k] == owner[k]);
        } else if k > owner.len() {
            assert(path[k] == repo[k - owner.len() - 1]);
        }
    }
    // The input needs no trimming.
    lemma_ident_chars(repo, repo.len() - 1);
    assert(input[0] == 'g');
    assert(!crate::text::is_ws(input.last())) by {
        match r {
            Some(x) => {
                assert(input.last() == x.last());
                lemma_trimmed_ends(x);
            },
            None => {
                assert(input.last() == repo.last());
            },
        }
    }
    lemma_trim_noop(input);
    // Only the `github:` prefix applies.
    assert(input[3] == 'h');
    assert(!crate::text::starts_with(input, "git@github.com:"@)) by {
        if input.len() >= 15 {
            assert(input.take(15)[3] == input[3]);
            assert("git@github.com:"@[3] == '@');
        }
    }
    assert(!crate::text::starts_with(input, "https://github.com/"@)) by {
        if input.len() >= 19 {
            assert(input.take(19)[0] == input[0]);
            assert("https://github.com/"@[0] == 'h');
        }
    }
    assert(!crate::text::starts_with(input, "http://github.com/"@)) by {
        if input.len() >= 18 {
            assert(input.take(18)[0] == input[0]);
            assert("http://github.com/"@[0] == 'h');
        }
    }
    assert(input.take(7) =~= "github:"@);
    assert(input.skip(7) =~= rest);
    assert(strip_github_prefix(input) == rest);
    // Splitting off the ref.
    match r {
        Some(x) => {
            lemma_find_char(rest, '#', 0, path.len() as int);
            assert(rest.take(path.len() as int) =~= path);
            assert(rest.skip(path.len() as int + 1) =~= x);
            assert(crate::text::split_once(rest, seq!['#']) == Some((path, x)));
        },
        None => {
            assert forall|k: int| 0 <= k implies !crate::text::occurs_at(rest, seq!['#'], k) by {
                if crate::text::occurs_at(rest, seq!['#'], k) {
                    assert(rest.subrange(k, k + 1)[0] == rest[k]);
                }
            }
            lemma_find_none(rest, seq!['#'], 0);
        },
    }
    // No `/tree/` in the path.
    assert forall|k: int| 0 <= k implies !crate::text::occurs_at(path, "/tree/"@, k) by {
        if crate::text::occurs_at(path, "/tree/"@, k) {
            assert(path.subrange(k, k + 6)[0] == path[k]);
            assert(path.subrange(k, k + 6)[5] == path[k + 5]);
        }
    }
    lemma_find_none(path, "/tree/"@, 0);
    // No `.git` suffix and no `/` at the ends.
    assert(!crate::text::ends_with(path, ".git"@)) by {
        if crate::text::ends_with(path, ".git"@) {
            let n = path.len();
            if repo.len() >= 4 {
                assert(repo.skip(repo.len() - 4) =~= path.skip(n - 4));
            } else {
                let k = owner.len() as int;
                assert(n - 4 <= k < n);
                assert(path.skip(n - 4)[k - (n - 4)] == path[k]);
            }
        }
    }
    assert(crate::text::strip_all_suffix(path, ".git"@) == path);
    lemma_ident_chars(owner, 0);
    assert(path[0] == owner[0]);
    assert(path.last() == repo.last());
    assert(crate::text::trim_char_start(path, '/') == path);
    assert(crate::text::trim_char_end(path, '/') == path);
    // The two names.
    lemma_split_two(owner, repo, '/');
    lemma_ident_chars(owner, owner.len() - 1);
    lemma_trim_noop(owner);
    lemma_trim_noop(repo);
}

/// Trimming the start never lengthens a text, and keeps it when it keeps its length.
proof fn lemma_trim_start_len2(t: Seq<char>)
    ensures
        crate::text::trim_start(t).len() <= t.len(),
        crate::text::trim_start(t).len() == t.len() ==> crate::text::trim_start(t) == t,
    decreases t.len(),
{
    if t.len() > 0 && crate::text::is_ws(t[0]) {
        lemma_trim_start_len2(t.drop_first());
    }
}

/// A non-empty text that is its own trim ends in a non-space.
proof fn lemma_trimmed_ends(x: Seq<char>)
    requires
        x.len() > 0,
        crate::text::trim(x) == x,
    ensures
        !crate::text::is_ws(x.last()),
{
    let t = crate::text::trim_start(x);
    lemma_trim_start_len2(x);
    lemma_trim_end_len(t);
    assert(t.len() == x.len());
    assert(t == x);
    if crate::text::is_ws(x.last()) {
        lemma_trim_end_len(x.drop_last());
        assert(crate::text::trim_end(x).len() < x.len());
    }
}

/// Trimming the end never lengthens a text.
proof fn lemma_trim_end_len(t: Seq<char>)
    ensures
        crate::text::trim_end(t).len() <= t.len(),
    decreases t.len(),
{
    if t.len() > 0 && crate::text::is_ws(t.last()) {
        lemma_trim_end_len(t.drop_last());
    }
}

} // verus!

verus! {

/// `s` with each space written as `+`.
pub open spec fn plus_for_space(s: Seq<char>) -> Seq<char> {
    Seq::new(s.len(), |i: int| if s[i] == ' ' { '+' } else { s[i] })
}

/// The commands a package search tries in turn for the query `q` (already
/// trimmed): `npm search`, then `npm view` of the exact name, then the
/// registry's search API through `curl`.
pub open spec fn search_commands_spec(q: Seq<char>) -> Seq<Seq<Seq<char>>> {
    seq![
        seq!["npm"@, "search"@, q, "--json"@, "--searchlimit"@, "15"@],
        seq!["npm"@, "view"@, q, "name"@, "version"@, "description"@, "--json"@],
        seq!["curl"@, "-s"@, "--max-time"@, "5"@,
            "https://registry.npmjs.org/-/v1/search?text="@ + plus_for_space(q) + "&size=15"@],
    ]
}

/// The commands (program first) a package search for `query` tries, in
/// order; none for a blank query.
pub fn npm_search_commands(query: &str) -> (r: Vec<Vec<String>>)
    ensures
        crate::text::trim(query@).len() == 0 ==> r@.len() == 0,
        crate::text::trim(query@).len() > 0 ==> r@.len() == 3
            && forall|i: int| 0 <= i < 3 ==> crate::launch::strs(#[trigger] r@[i]@) == search_commands_spec(crate::text::trim(query@))[i],
{
    let q = crate::text::trim_str(query);
    let mut out: Vec<Vec<String>> = Vec::new();
    if q.as_str().is_empty() {
        return out;
    }
    let qs = q.as_str();
    let mut a: Vec<String> = Vec::new();
    a.push(String::from_str("npm"));
    a.push(String::from_str("search"));
    a.push(String::from_str(qs));
    a.push(String::from_str("--json"));
    a.push(String::from_str("--searchlimit"));
    a.push(String::from_str("15"));
    let mut b: Vec<String> = Vec::new();
    b.push(String::from_str("npm"));
    b.push(String::from_str("view"));
    b.push(String::from_str(qs));
    b.push(String::from_str("name"));
    b.push(String::from_str("version"));
    b.push(String::from_str("description"));
    b.push(String::from_str("--json"));
    let chars = chars_of(qs);
    let mut plus: Vec<char> = Vec::new();
    let mut i: usize = 0;
    while i < chars.len()
        invariant
            i <= chars@.len(),
            chars@ == q@,
            plus@ == plus_for_space(chars@).take(i as int),
        decreases chars.len() - i,
    {
        let c = if chars[i] == ' ' { '+' } else { chars[i] };
        plus.push(c);
        assert(plus@ =~= plus_for_space(chars@).take(i + 1));
        i = i + 1;
    }
    assert(plus_for_space(chars@).take(chars@.len() as int) =~= plus_for_space(chars@));
    let pq = string_from_chars(&plus);
    let url = concat_str("https://registry.npmjs.org/-/v1/search?text=", pq.as_str());
    let url = concat_str(url.as_str(), "&size=15");
    let mut c: Vec<String> = Vec::new();
    c.push(String::from_str("curl"));
    c.push(String::from_str("-s"));
    c.push(String::from_str("--max-time"));
    c.push(String::from_str("5"));
    c.push(url);
    proof {
        let sc = search_commands_spec(q@);
        assert(crate::launch::strs(a@) =~= sc[0]);
        assert(crate::launch::strs(b@) =~= sc[1]);
        assert(crate::launch::strs(c@) =~= sc[2]);
    }
    out.push(a);
    out.push(b);
    out.push(c);
    out
}

/// The first non-empty result among the outputs of the search commands.
pub open spec fn first_results(outputs: Seq<Option<Seq<char>>>) -> Seq<(Seq<char>, Seq<char>, Seq<char>, Seq<char>)>
    decreases outputs.len(),
{
    if outputs.len() == 0 {
        Seq::empty()
    } else {
        match outputs[0] {
            Some(o) => if npm_results(o).len() > 0 { npm_results(o) } else { first_results(outputs.drop_first()) },
            None => first_results(outputs.drop_first()),
        }
    }
}

/// The packages a search finds: the first command whose output (`Some`
/// when it ran and succeeded) lists any, in the order of
/// [`npm_search_commands`]; none otherwise.
pub fn search_npm_packages(outputs: &Vec<Option<String>>) -> (r: Vec<NpmPkgResult>)
    ensures
        pkg_views(r@) == first_results(crate::launch::opt_strs(outputs@)),
{
    let ghost all = crate::launch::opt_strs(outputs@);
    let mut i: usize = 0;
    assert(all.skip(0) =~= all);
    while i < outputs.len()
        invariant
            i <= outputs@.len(),
            all == crate::launch::opt_strs(outputs@),
            first_results(all) == first_results(all.skip(i as int)),
        decreases outputs.len() - i,
    {
        assert(all.skip(i as int)[0] == opt_string_view(outputs@[i as int]));
        assert(all.skip(i as int).drop_first() =~= all.skip(i + 1));
        match &outputs[i] {
            Some(o) => {
                let parsed = parse_npm_search_json(o.as_str());
                if parsed.len() > 0 {
                    return parsed;
                }
            },
            None => {},
        }
        i = i + 1;
    }
    let r: Vec<NpmPkgResult> = Vec::new();
    assert(pkg_views(r@) =~= Seq::<(Seq<char>, Seq<char>, Seq<char>, Seq<char>)>::empty());
    r
}

} // verus!
