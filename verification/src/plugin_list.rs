//! The plugin list of a profile: every user plugin named in its manifest,
//! with what its installed copy says about itself and where to read more.
use vstd::prelude::*;
use crate::json::{Json, JsonV, get_member, get_str, parse_json, views_of};
use crate::order::{insert_sorted, strictly_sorted};
use crate::plugins::{PluginSource, is_core_plugin, determine_plugin_source, bundle_list};
use crate::text::{chars_of, lit, strip_prefix_vec, split_once_vec, strip_all_suffix_vec, trim_char_vec,
    concat_vec, string_from_chars, subvec};

verus! {

/// One plugin of a profile.
#[derive(Debug)]
pub struct PluginEntry {
    pub name: String,
    /// What to show as its version: the declared specifier, else the installed version.
    pub version: String,
    /// The specifier declared in `dependencies` (empty when not declared).
    pub specifier: String,
    /// Version of the installed copy under `node_modules`.
    pub installed_version: Option<String>,
    /// Description of the installed copy.
    pub description: Option<String>,
    pub source: PluginSource,
    /// Repository or package page.
    pub url: Option<String>,
    /// Whether it is listed in `dsh.profile.bundles`.
    pub enabled: bool,
}

/// Keys of an object's members.
pub open spec fn member_keys(m: Seq<(Seq<char>, JsonV)>) -> Seq<Seq<char>> {
    Seq::new(m.len(), |i: int| m[i].0)
}

/// The members of `dependencies`, when it is an object.
pub open spec fn dependency_members(doc: JsonV) -> Seq<(Seq<char>, JsonV)> {
    match crate::json::get(doc, "dependencies"@) {
        Some(JsonV::Object(m)) => m,
        _ => Seq::empty(),
    }
}

/// Names listed in a plugin list: the user dependencies and the user
/// bundles (those outside the official scopes).
pub open spec fn plugin_name_set(doc: JsonV) -> Set<Seq<char>> {
    Set::new(|k: Seq<char>|
        !crate::plugins::is_core_spec(k) && (member_keys(dependency_members(doc)).contains(k)
            || crate::plugins::bundle_names(doc).contains(k)))
}

/// The user plugin names of a manifest, sorted, each once.
pub fn plugin_names(doc: &Json) -> (names: Vec<String>)
    ensures
        strictly_sorted(views_of(names@)),
        views_of(names@).to_set() == plugin_name_set(doc.jv()),
{
    let mut names: Vec<String> = Vec::new();
    let ghost deps = dependency_members(doc.jv());
    let key = String::from_str("dependencies");
    let mut dep_count: usize = 0;
    match get_member(doc, &key) {
        Some(Json::Object(m)) => {
            proof {
                crate::json::lemma_jv_unfold(Json::Object(*m));
                assert(deps == crate::json::members_v(m@));
            }
            let mut i: usize = 0;
            while i < m.len()
                invariant
                    i <= m@.len(),
                    deps == crate::json::members_v(m@),
                    strictly_sorted(views_of(names@)),
                    views_of(names@).to_set() == Set::new(|k: Seq<char>|
                        !crate::plugins::is_core_spec(k) && member_keys(deps.take(i as int)).contains(k)),
                decreases m.len() - i,
            {
                let ghost before = views_of(names@).to_set();
                let ghost k = m@[i as int].0@;
                if !is_core_plugin(m[i].0.as_str()) {
                    insert_sorted(&mut names, m[i].0.clone());
                }
                proof {
                    assert(deps[i as int].0 == k);
                    assert(views_of(names@).to_set() =~= Set::new(|x: Seq<char>|
                        !crate::plugins::is_core_spec(x) && member_keys(deps.take(i + 1)).contains(x))) by {
                        assert forall|x: Seq<char>| #[trigger] member_keys(deps.take(i + 1)).contains(x)
                            <==> (member_keys(deps.take(i as int)).contains(x) || x == k) by {
                            if member_keys(deps.take(i + 1)).contains(x) {
                                let j = choose|j: int| 0 <= j < i + 1 && #[trigger] member_keys(deps.take(i + 1))[j] == x;
                                if j < i {
                                    assert(member_keys(deps.take(i as int))[j] == x);
                                }
                            }
                            if member_keys(deps.take(i as int)).contains(x) {
                                let j = choose|j: int| 0 <= j < i && #[trigger] member_keys(deps.take(i as int))[j] == x;
                                assert(member_keys(deps.take(i + 1))[j] == x);
                            }
                            if x == k {
                                assert(member_keys(deps.take(i + 1))[i as int] == x);
                            }
                        }
                    }
                }
                i = i + 1;
            }
            assert(deps.take(m@.len() as int) =~= deps);
            dep_count = m.len();
        },
        _ => {
            proof {
                assert(deps =~= Seq::<(Seq<char>, JsonV)>::empty());
                assert(views_of(names@).to_set() =~= Set::new(|k: Seq<char>|
                    !crate::plugins::is_core_spec(k) && member_keys(deps).contains(k)));
            }
        },
    }
    let ghost dep_set = views_of(names@).to_set();
    assert(dep_set == Set::new(|k: Seq<char>| !crate::plugins::is_core_spec(k) && member_keys(deps).contains(k)));
    let bundles = bundle_list(doc);
    let ghost bs = crate::plugins::bundle_names(doc.jv());
    assert(views_of(bundles@) == bs);
    let mut j: usize = 0;
    while j < bundles.len()
        invariant
            j <= bundles@.len(),
            views_of(bundles@) == bs,
            strictly_sorted(views_of(names@)),
            views_of(names@).to_set() == dep_set + Set::new(|k: Seq<char>|
                !crate::plugins::is_core_spec(k) && bs.take(j as int).contains(k)),
        decreases bundles.len() - j,
    {
        let ghost k = bundles@[j as int]@;
        if !is_core_plugin(bundles[j].as_str()) {
            insert_sorted(&mut names, bundles[j].clone());
        }
        proof {
            assert(bs[j as int] == k);
            assert(views_of(names@).to_set() =~= dep_set + Set::new(|x: Seq<char>|
                !crate::plugins::is_core_spec(x) && bs.take(j + 1).contains(x))) by {
                assert forall|x: Seq<char>| #[trigger] bs.take(j + 1).contains(x)
                    <==> (bs.take(j as int).contains(x) || x == k) by {
                    if bs.take(j + 1).contains(x) {
                        let a = choose|a: int| 0 <= a < j + 1 && #[trigger] bs.take(j + 1)[a] == x;
                        if a < j {
                            assert(bs.take(j as int)[a] == x);
                        }
                    }
                    if bs.take(j as int).contains(x) {
                        let a = choose|a: int| 0 <= a < j && #[trigger] bs.take(j as int)[a] == x;
                        assert(bs.take(j + 1)[a] == x);
                    }
                    if x == k {
                        assert(bs.take(j + 1)[j as int] == x);
                    }
                }
            }
        }
        j = j + 1;
    }
    assert(bs.take(bundles@.len() as int) =~= bs);
    assert(views_of(names@).to_set() =~= plugin_name_set(doc.jv()));
    names
}

/// A repository URL as written in a manifest, made into a web link:
/// `git+` and a trailing `.git` dropped, `ssh://git@github.com/` turned into
/// `https://github.com/`.
pub open spec fn normalize_repo(raw: Seq<char>) -> Seq<char> {
    let r1 = match crate::text::strip_prefix(raw, "git+"@) { Some(s) => s, None => raw };
    let r2 = match crate::text::strip_prefix(r1, "ssh://git@github.com/"@) {
        Some(s) => "https://github.com/"@ + s,
        None => r1,
    };
    match crate::text::strip_suffix(r2, ".git"@) { Some(s) => s, None => r2 }
}

/// An `http://` or `https://` link.
pub open spec fn is_web_link(s: Seq<char>) -> bool {
    crate::text::starts_with(s, "http://"@) || crate::text::starts_with(s, "https://"@)
}

/// The URL of a `repository` field: the string itself, or its `url` member.
pub open spec fn repository_string(repo: JsonV) -> Option<Seq<char>> {
    match repo {
        JsonV::Str(s) => Some(s),
        JsonV::Object(m) => match crate::json::member(m, "url"@) {
            Some(u) => crate::json::as_str(u),
            None => None,
        },
        _ => None,
    }
}

/// The link an installed package's manifest gives: its repository as a web
/// link, else its `homepage` when that is a web link.
pub open spec fn metadata_url(pkg: JsonV) -> Option<Seq<char>> {
    let from_repo = match crate::json::get(pkg, "repository"@) {
        Some(repo) => match repository_string(repo) {
            Some(raw) => if is_web_link(normalize_repo(raw)) { Some(normalize_repo(raw)) } else { None },
            None => None,
        },
        None => None,
    };
    match from_repo {
        Some(u) => Some(u),
        None => match crate::json::get(pkg, "homepage"@) {
            Some(h) => match crate::json::as_str(h) {
                Some(hp) => if is_web_link(hp) { Some(hp) } else { None },
                None => None,
            },
            None => None,
        },
    }
}

/// `s` up to its first `#`.
pub open spec fn before_hash(s: Seq<char>) -> Seq<char> {
    match crate::text::split_once(s, seq!['#']) {
        Some((a, _)) => a,
        None => s,
    }
}

/// The link derived from the declared specifier: the GitHub repository of a
/// `github:` or `git+https://github.com/` specifier, the npm page of an npm one.
pub open spec fn specifier_url(name: Seq<char>, specifier: Seq<char>, source: PluginSource) -> Option<Seq<char>> {
    match source {
        PluginSource::Git => match crate::text::strip_prefix(specifier, "github:"@) {
            Some(rest) => Some("https://github.com/"@ + crate::text::trim_char(before_hash(rest), '/')),
            None => match crate::text::strip_prefix(specifier, "git+https://github.com/"@) {
                Some(rest) => Some("https://github.com/"@
                    + crate::text::trim_char(crate::text::strip_all_suffix(before_hash(rest), ".git"@), '/')),
                None => None,
            },
        },
        PluginSource::Npm => Some("https://www.npmjs.com/package/"@ + name),
        _ => None,
    }
}

/// Where to read more about a plugin: what its installed manifest links to,
/// else what its specifier implies.
pub open spec fn repo_url_spec(name: Seq<char>, specifier: Seq<char>, source: PluginSource, pkg: Option<JsonV>) -> Option<Seq<char>> {
    match pkg {
        Some(j) => match metadata_url(j) {
            Some(u) => Some(u),
            None => specifier_url(name, specifier, source),
        },
        None => specifier_url(name, specifier, source),
    }
}

/// `s` without the suffix `p`, if it has it.
fn strip_suffix_vec(s: &Vec<char>, p: &Vec<char>) -> (r: Option<Vec<char>>)
    ensures
        match r {
            Some(v) => crate::text::strip_suffix(s@, p@) == Some(v@),
            None => crate::text::strip_suffix(s@, p@) is None,
        },
{
    if p.len() <= s.len() && crate::text::starts_with_at(s, s.len() - p.len(), p) {
        let n = s.len() - p.len();
        let v = subvec(s, 0, n);
        proof {
            assert(s@.skip(n as int).take(p@.len() as int) =~= s@.skip(n as int));
            assert(v@ =~= s@.take(n as int));
        }
        Some(v)
    } else {
        proof {
            if p@.len() <= s@.len() {
                let n = s@.len() - p@.len();
                assert(s@.skip(n).take(p@.len() as int) =~= s@.skip(n));
            }
        }
        None
    }
}

/// Whether `s` is an `http://` or `https://` link.
fn is_web_link_vec(s: &Vec<char>) -> (b: bool)
    ensures
        b == is_web_link(s@),
{
    let h = lit("http://");
    let hs = lit("https://");
    let b1 = crate::text::starts_with_at(s, 0, &h);
    let b2 = crate::text::starts_with_at(s, 0, &hs);
    assert(s@.skip(0) =~= s@);
    b1 || b2
}

/// [`normalize_repo`] on vectors.
fn normalize_repo_vec(raw: &Vec<char>) -> (r: Vec<char>)
    ensures
        r@ == normalize_repo(raw@),
{
    let r1 = match strip_prefix_vec(raw, &lit("git+")) {
        Some(v) => v,
        None => subvec(raw, 0, raw.len()),
    };
    assert(raw@.subrange(0, raw@.len() as int) =~= raw@);
    let r2 = match strip_prefix_vec(&r1, &lit("ssh://git@github.com/")) {
        Some(v) => concat_vec(&lit("https://github.com/"), &v),
        None => r1,
    };
    match strip_suffix_vec(&r2, &lit(".git")) {
        Some(v) => v,
        None => r2,
    }
}

/// [`metadata_url`] of an installed package's manifest.
fn metadata_url_of(pkg: &Json) -> (r: Option<Vec<char>>)
    ensures
        match r {
            Some(v) => metadata_url(pkg.jv()) == Some(v@),
            None => metadata_url(pkg.jv()) is None,
        },
{
    let repo_key = String::from_str("repository");
    match get_member(pkg, &repo_key) {
        Some(repo) => {
            proof { crate::json::lemma_jv_unfold(*repo); }
            let raw: Option<Vec<char>> = match repo {
                Json::Str(s) => Some(chars_of(s.as_str())),
                Json::Object(_) => {
                    let url_key = String::from_str("url");
                    match get_member(repo, &url_key) {
                        Some(u) => match get_str(u) {
                            Some(us) => Some(chars_of(us.as_str())),
                            None => None,
                        },
                        None => None,
                    }
                },
                _ => None,
            };
            match raw {
                Some(rv) => {
                    let n = normalize_repo_vec(&rv);
                    if is_web_link_vec(&n) {
                        return Some(n);
                    }
                },
                None => {},
            }
        },
        None => {},
    }
    let home_key = String::from_str("homepage");
    match get_member(pkg, &home_key) {
        Some(h) => match get_str(h) {
            Some(hp) => {
                let v = chars_of(hp.as_str());
                if is_web_link_vec(&v) { Some(v) } else { None }
            },
            None => None,
        },
        None => None,
    }
}

/// [`before_hash`] on vectors.
fn before_hash_vec(s: &Vec<char>) -> (r: Vec<char>)
    ensures
        r@ == before_hash(s@),
{
    let mut hash: Vec<char> = Vec::new();
    hash.push('#');
    assert(hash@ =~= seq!['#']);
    match split_once_vec(s, &hash) {
        Some((a, _)) => a,
        None => subvec(s, 0, s.len()),
    }
}

/// Where to read more about the plugin `name` declared as `specifier` from
/// `source`: the repository or homepage its installed manifest `pkg` gives,
/// else the GitHub repository or npm page its specifier implies.
pub fn parse_plugin_repo_url(name: &str, specifier: &str, source: PluginSource, pkg: Option<&Json>) -> (r: Option<String>)
    ensures
        crate::install::opt_string_view(r) == repo_url_spec(name@, specifier@,
            source, match pkg { Some(j) => Some(j.jv()), None => None }),
{
    match pkg {
        Some(j) => match metadata_url_of(j) {
            Some(v) => return Some(string_from_chars(&v)),
            None => {},
        },
        None => {},
    }
    let spec = chars_of(specifier);
    match source {
        PluginSource::Git => {
            let base = lit("https://github.com/");
            match strip_prefix_vec(&spec, &lit("github:")) {
                Some(rest) => {
                    let user_repo = trim_char_vec(&before_hash_vec(&rest), '/');
                    Some(string_from_chars(&concat_vec(&base, &user_repo)))
                },
                None => match strip_prefix_vec(&spec, &lit("git+https://github.com/")) {
                    Some(rest) => {
                        let cut = strip_all_suffix_vec(&before_hash_vec(&rest), &lit(".git"));
                        let user_repo = trim_char_vec(&cut, '/');
                        Some(string_from_chars(&concat_vec(&base, &user_repo)))
                    },
                    None => None,
                },
            }
        },
        PluginSource::Npm => {
            let page = concat_vec(&lit("https://www.npmjs.com/package/"), &chars_of(name));
            Some(string_from_chars(&page))
        },
        _ => None,
    }
}

/// The specifier `dependencies` declares for `name` (empty when none).
pub open spec fn specifier_spec(doc: JsonV, name: Seq<char>) -> Seq<char> {
    match crate::json::get_opt(crate::json::get(doc, "dependencies"@), name) {
        Some(v) => match crate::json::as_str(v) {
            Some(s) => s,
            None => Seq::empty(),
        },
        None => Seq::empty(),
    }
}

/// The installed manifest, when its text was read and parses.
pub open spec fn installed_doc(text: Option<Seq<char>>) -> Option<JsonV> {
    match text {
        Some(t) => match crate::json::json_parse(t) {
            Ok(v) => Some(v),
            Err(_) => None,
        },
        None => None,
    }
}

/// The string field `key` of an optional manifest.
pub open spec fn str_field(pkg: Option<JsonV>, key: Seq<char>) -> Option<Seq<char>> {
    match crate::json::get_opt(pkg, key) {
        Some(v) => crate::json::as_str(v),
        None => None,
    }
}

/// `e` is the entry of plugin `name` in the profile manifest `doc`, its
/// installed manifest read as `text`.
pub open spec fn entry_spec(e: PluginEntry, doc: JsonV, name: Seq<char>, text: Option<Seq<char>>) -> bool {
    let spec = specifier_spec(doc, name);
    let pkg = installed_doc(text);
    let installed = str_field(pkg, "version"@);
    &&& e.name@ == name
    &&& e.specifier@ == spec
    &&& crate::install::opt_string_view(e.installed_version) == installed
    &&& crate::install::opt_string_view(e.description) == str_field(pkg, "description"@)
    &&& e.source == crate::plugins::source_of(spec)
    &&& crate::install::opt_string_view(e.url) == repo_url_spec(name, spec, crate::plugins::source_of(spec), pkg)
    &&& e.version@ == (if spec.len() > 0 { spec } else {
        match installed { Some(v) => v, None => Seq::empty() } })
    &&& e.enabled == (!crate::plugins::is_core_spec(name) && crate::plugins::bundle_names(doc).contains(name))
}

/// The string field `key` of an optional manifest.
fn str_field_of(pkg: &Option<Json>, key: &str) -> (r: Option<String>)
    ensures
        crate::install::opt_string_view(r) == str_field(match pkg { Some(j) => Some(j.jv()), None => None }, key@),
{
    match pkg {
        Some(j) => {
            let k = String::from_str(key);
            match get_member(j, &k) {
                Some(v) => match get_str(v) {
                    Some(s) => Some(s.clone()),
                    None => None,
                },
                None => None,
            }
        },
        None => None,
    }
}

/// Whether `name` is among the strings of `list`.
fn contains_string(list: &Vec<String>, name: &String) -> (b: bool)
    ensures
        b == views_of(list@).contains(name@),
{
    let mut i: usize = 0;
    while i < list.len()
        invariant
            i <= list@.len(),
            forall|j: int| 0 <= j < i ==> views_of(list@)[j] != name@,
        decreases list.len() - i,
    {
        if list[i] == *name {
            assert(views_of(list@)[i as int] == name@);
            return true;
        }
        i = i + 1;
    }
    false
}

/// The entry of plugin `name` in the profile manifest `doc`, given the text
/// of its installed `node_modules/<name>/package.json` (`None` when it could
/// not be read).
pub fn plugin_entry(doc: &Json, name: &String, installed_manifest: Option<&str>) -> (e: PluginEntry)
    ensures
        entry_spec(e, doc.jv(), name@, match installed_manifest { Some(t) => Some(t@), None => None }),
{
    let deps_key = String::from_str("dependencies");
    let specifier = match get_member(doc, &deps_key) {
        Some(d) => match get_member(d, name) {
            Some(v) => match get_str(v) {
                Some(s) => s.clone(),
                None => String::new(),
            },
            None => String::new(),
        },
        None => String::new(),
    };
    let source = determine_plugin_source(specifier.as_str());
    let pkg: Option<Json> = match installed_manifest {
        Some(t) => match parse_json(t) {
            Ok(j) => Some(j),
            Err(_) => None,
        },
        None => None,
    };
    let installed_version = str_field_of(&pkg, "version");
    let description = str_field_of(&pkg, "description");
    let url = match &pkg {
        Some(j) => parse_plugin_repo_url(name.as_str(), specifier.as_str(), source, Some(j)),
        None => parse_plugin_repo_url(name.as_str(), specifier.as_str(), source, None),
    };
    let version = if !specifier.as_str().is_empty() {
        specifier.clone()
    } else {
        match &installed_version {
            Some(v) => v.clone(),
            None => String::new(),
        }
    };
    let bundles = bundle_list(doc);
    let enabled = !is_core_plugin(name.as_str()) && contains_string(&bundles, name);
    PluginEntry {
        name: name.clone(),
        version,
        specifier,
        installed_version,
        description,
        source,
        url,
        enabled,
    }
}

/// The entries of the plugins `names` of the profile manifest `doc`, in that
/// order; `installed_manifests[i]` is the text of the installed manifest of
/// `names[i]`, if it could be read.
pub fn plugin_entries(doc: &Json, names: &Vec<String>, installed_manifests: &Vec<Option<String>>) -> (r: Vec<PluginEntry>)
    requires
        names@.len() == installed_manifests@.len(),
    ensures
        r@.len() == names@.len(),
        forall|i: int| 0 <= i < names@.len() ==> entry_spec(#[trigger] r@[i], doc.jv(), names@[i]@,
            match installed_manifests@[i] { Some(t) => Some(t@), None => None }),
{
    let mut out: Vec<PluginEntry> = Vec::new();
    let mut i: usize = 0;
    while i < names.len()
        invariant
            i <= names@.len(),
            names@.len() == installed_manifests@.len(),
            out@.len() == i,
            forall|j: int| 0 <= j < i ==> entry_spec(#[trigger] out@[j], doc.jv(), names@[j]@,
                match installed_manifests@[j] { Some(t) => Some(t@), None => None }),
        decreases names.len() - i,
    {
        let e = match &installed_manifests[i] {
            Some(t) => plugin_entry(doc, &names[i], Some(t.as_str())),
            None => plugin_entry(doc, &names[i], None),
        };
        out.push(e);
        i = i + 1;
    }
    out
}

/// The segments of a package name, `/`-separated (`@scope/name` has two).
pub open spec fn name_segments(name: Seq<char>) -> Seq<Seq<char>> {
    crate::text::split_on(name, '/')
}

/// `base` joined with each segment in turn.
pub open spec fn join_all(base: Seq<char>, segs: Seq<Seq<char>>) -> Seq<char>
    decreases segs.len(),
{
    if segs.len() == 0 {
        base
    } else {
        crate::state::join_path(join_all(base, segs.drop_last()), segs.last())
    }
}

/// The installed manifest of plugin `name` in the profile directory
/// `profile_dir`: `node_modules/<name segments>/package.json`.
pub fn installed_manifest_path(profile_dir: &str, name: &str) -> (r: String)
    ensures
        r@ == crate::state::join_path(
            join_all(crate::state::join_path(profile_dir@, "node_modules"@), name_segments(name@)),
            "package.json"@),
{
    let mut path = crate::state::join_path_str(profile_dir, "node_modules");
    let chars = chars_of(name);
    let segs = crate::text::split_chars(&chars, 0, chars.len(), '/');
    let ghost base = path@;
    assert(chars@.subrange(0, chars@.len() as int) =~= chars@);
    let mut i: usize = 0;
    while i < segs.len()
        invariant
            i <= segs@.len(),
            crate::text::views(segs@) == name_segments(name@),
            path@ == join_all(base, crate::text::views(segs@).take(i as int)),
        decreases segs.len() - i,
    {
        let seg = string_from_chars(&segs[i]);
        path = crate::state::join_path_str(path.as_str(), seg.as_str());
        proof {
            let t = crate::text::views(segs@).take(i + 1);
            assert(t.drop_last() =~= crate::text::views(segs@).take(i as int));
            assert(t.last() == segs@[i as int]@);
        }
        i = i + 1;
    }
    assert(crate::text::views(segs@).take(segs@.len() as int) =~= crate::text::views(segs@));
    crate::state::join_path_str(path.as_str(), "package.json")
}

} // verus!
