//! Plugins of a dsh profile: what its `package.json` declares, which of them
//! are enabled (listed in `dsh.profile.bundles`), where they come from, and
//! the edits that enable or disable them.
use vstd::prelude::*;
use crate::json::{Json, get_member, get_str, string_items};
use crate::text::{str_starts_with, str_ends_with, str_eq, trim_str};

verus! {

/// Official core plugins: they can be neither enabled nor disabled.
pub open spec fn is_core_spec(name: Seq<char>) -> bool {
    crate::text::starts_with(name, "@deepseek-ai/"@) || crate::text::starts_with(name, "@deepseek-harness-tui/"@)
}

/// Whether `name` is an official core plugin (`@deepseek-ai/*` or `@deepseek-harness-tui/*`).
pub fn is_core_plugin(name: &str) -> (b: bool)
    ensures
        b == is_core_spec(name@),
{
    str_starts_with(name, "@deepseek-ai/") || str_starts_with(name, "@deepseek-harness-tui/")
}

/// Where a plugin was installed from.
#[derive(Clone, Copy, Debug, PartialEq, Eq, Structural)]
pub enum PluginSource {
    Npm,
    Git,
    Local,
    Unknown,
}

/// Name shown for a plugin source.
pub open spec fn source_name(s: PluginSource) -> Seq<char> {
    match s {
        PluginSource::Npm => "npm"@,
        PluginSource::Git => "git"@,
        PluginSource::Local => "local"@,
        PluginSource::Unknown => "unknown"@,
    }
}

impl PluginSource {
    /// Name shown for this source.
    pub fn as_str(&self) -> (s: &'static str)
        ensures
            s@ == source_name(*self),
    {
        proof {
            reveal_strlit("npm");
            reveal_strlit("git");
            reveal_strlit("local");
            reveal_strlit("unknown");
        }
        match self {
            PluginSource::Npm => "npm",
            PluginSource::Git => "git",
            PluginSource::Local => "local",
            PluginSource::Unknown => "unknown",
        }
    }
}

/// Source of a plugin, from the version specifier it was declared with.
pub open spec fn source_of(specifier: Seq<char>) -> PluginSource {
    let s = crate::text::trim(specifier);
    if s.len() == 0 {
        PluginSource::Unknown
    } else if crate::text::starts_with(s, "github:"@) || crate::text::starts_with(s, "git+"@)
        || crate::text::starts_with(s, "git:"@) {
        PluginSource::Git
    } else if crate::text::starts_with(s, "file:"@) || crate::text::starts_with(s, "link:"@)
        || crate::text::starts_with(s, "workspace:"@) {
        PluginSource::Local
    } else {
        PluginSource::Npm
    }
}

/// Source of a plugin from its declared specifier: empty → unknown;
/// `github:`/`git+`/`git:` → git; `file:`/`link:`/`workspace:` → local;
/// anything else → npm.
pub fn determine_plugin_source(specifier: &str) -> (r: PluginSource)
    ensures
        r == source_of(specifier@),
{
    let s = trim_str(specifier);
    let s = s.as_str();
    if s.is_empty() {
        PluginSource::Unknown
    } else if str_starts_with(s, "github:") || str_starts_with(s, "git+") || str_starts_with(s, "git:") {
        PluginSource::Git
    } else if str_starts_with(s, "file:") || str_starts_with(s, "link:") || str_starts_with(s, "workspace:") {
        PluginSource::Local
    } else {
        PluginSource::Npm
    }
}

} // verus!

verus! {

/// `dsh.profile.bundles` of a manifest.
pub open spec fn bundles_of(doc: crate::json::JsonV) -> Option<crate::json::JsonV> {
    crate::json::get_opt(crate::json::get_opt(crate::json::get(doc, "dsh"@), "profile"@), "bundles"@)
}

/// The string entries of `dsh.profile.bundles` (empty when it is missing or not a list).
pub open spec fn bundle_names(doc: crate::json::JsonV) -> Seq<Seq<char>> {
    match bundles_of(doc) {
        Some(crate::json::JsonV::Array(a)) => crate::json::strings_of(a),
        _ => Seq::empty(),
    }
}

/// A bundle that makes a profile a web profile.
pub open spec fn is_web_bundle(b: Seq<char>) -> bool {
    b == "dsh-web-app"@ || crate::text::ends_with(b, "/dsh-web-app"@)
}

/// Bundles and web-ness of a profile, from the text of its `package.json`.
pub open spec fn profile_bundles_spec(text: Seq<char>) -> (Seq<Seq<char>>, bool) {
    match crate::json::json_parse(text) {
        Ok(doc) => bundles_and_web(doc),
        Err(_) => (Seq::empty(), false),
    }
}

/// Bundles and web-ness of a parsed manifest.
pub open spec fn bundles_and_web(doc: crate::json::JsonV) -> (Seq<Seq<char>>, bool) {
    (bundle_names(doc), exists|i: int| 0 <= i < bundle_names(doc).len() && is_web_bundle(#[trigger] bundle_names(doc)[i]))
}

/// `dsh.profile.bundles` of a manifest, if present.
pub fn bundles_ref(doc: &Json) -> (r: Option<&Json>)
    ensures
        match r {
            Some(v) => bundles_of(doc.jv()) == Some(v.jv()),
            None => bundles_of(doc.jv()) is None,
        },
{
    let k1 = String::from_str("dsh");
    let k2 = String::from_str("profile");
    let k3 = String::from_str("bundles");
    let d = match get_member(doc, &k1) { Some(d) => d, None => return None };
    let p = match get_member(d, &k2) { Some(p) => p, None => return None };
    get_member(p, &k3)
}

/// The string entries of `dsh.profile.bundles`.
pub fn bundle_list(doc: &Json) -> (r: Vec<String>)
    ensures
        crate::json::views_of(r@) == bundle_names(doc.jv()),
{
    match bundles_ref(doc) {
        Some(b) => match b {
            Json::Array(items) => {
                proof { crate::json::lemma_jv_unfold(*b); }
                string_items(items)
            },
            _ => {
                let r: Vec<String> = Vec::new();
                assert(crate::json::views_of(r@) =~= Seq::<Seq<char>>::empty());
                r
            },
        },
        None => {
            let r: Vec<String> = Vec::new();
            assert(crate::json::views_of(r@) =~= Seq::<Seq<char>>::empty());
            r
        },
    }
}

/// Read a profile's bundles from the text of its `package.json`: the string
/// entries of `dsh.profile.bundles`, and whether one of them is the web app
/// (`dsh-web-app` or `…/dsh-web-app`). Unparsable text gives `([], false)`.
pub fn read_profile_bundles(text: &str) -> (r: (Vec<String>, bool))
    ensures
        crate::json::views_of(r.0@) == profile_bundles_spec(text@).0,
        r.1 == profile_bundles_spec(text@).1,
{
    match crate::json::parse_json(text) {
        Ok(d) => profile_bundles_of(&d),
        Err(_) => {
            let r: Vec<String> = Vec::new();
            assert(crate::json::views_of(r@) =~= Seq::<Seq<char>>::empty());
            (r, false)
        },
    }
}

/// The string entries of `dsh.profile.bundles` of a parsed manifest, and
/// whether one of them is the web app (`dsh-web-app` or `…/dsh-web-app`).
pub fn profile_bundles_of(doc: &Json) -> (r: (Vec<String>, bool))
    ensures
        crate::json::views_of(r.0@) == bundles_and_web(doc.jv()).0,
        r.1 == bundles_and_web(doc.jv()).1,
{
    let bundles = bundle_list(doc);
    let ghost names = crate::json::views_of(bundles@);
    let mut web = false;
    let mut i: usize = 0;
    while i < bundles.len()
        invariant
            i <= bundles@.len(),
            names == crate::json::views_of(bundles@),
            web == exists|k: int| 0 <= k < i && is_web_bundle(#[trigger] names[k]),
        decreases bundles.len() - i,
    {
        let b = bundles[i].as_str();
        assert(names[i as int] == b@);
        if str_eq(b, "dsh-web-app") || str_ends_with(b, "/dsh-web-app") {
            web = true;
        }
        i = i + 1;
    }
    (bundles, web)
}

} // verus!

verus! {

/// The shapes of manifest on which `dsh.profile.bundles` can be created
/// (the document, `dsh` and `dsh.profile` are objects, `null`, or absent).
pub open spec fn bundles_slot_writable(doc: crate::json::JsonV) -> bool {
    match doc {
        crate::json::JsonV::Null => true,
        crate::json::JsonV::Object(m) => match crate::json::member(m, "dsh"@) {
            None => true,
            Some(crate::json::JsonV::Null) => true,
            Some(crate::json::JsonV::Object(d)) => match crate::json::member(d, "profile"@) {
                None => true,
                Some(p) => p is Null || p is Object,
            },
            Some(_) => false,
        },
        _ => false,
    }
}

/// `doc` with `dsh.profile.bundles` set to `arr`, creating the missing levels.
pub open spec fn with_bundles(doc: crate::json::JsonV, arr: crate::json::JsonV) -> crate::json::JsonV {
    let d = crate::json::index_get(doc, "dsh"@);
    let p = crate::json::index_get(d, "profile"@);
    crate::json::index_set(doc, "dsh"@, crate::json::index_set(d, "profile"@, crate::json::index_set(p, "bundles"@, arr)))
}

/// The bundle list: empty when missing, `None` when present but not a list.
pub open spec fn bundle_items(doc: crate::json::JsonV) -> Option<Seq<crate::json::JsonV>> {
    match bundles_of(doc) {
        None => Some(Seq::empty()),
        Some(crate::json::JsonV::Array(a)) => Some(a),
        Some(_) => None,
    }
}

/// `p` is one of the string items.
pub open spec fn has_str(items: Seq<crate::json::JsonV>, p: Seq<char>) -> bool {
    exists|i: int| 0 <= i < items.len() && crate::json::as_str(#[trigger] items[i]) == Some(p)
}

/// The items other than the string `p`.
pub open spec fn without_str(items: Seq<crate::json::JsonV>, p: Seq<char>) -> Seq<crate::json::JsonV>
    decreases items.len(),
{
    if items.len() == 0 {
        Seq::empty()
    } else if crate::json::as_str(items.last()) == Some(p) {
        without_str(items.drop_last(), p)
    } else {
        without_str(items.drop_last(), p).push(items.last())
    }
}

/// Error for an official core plugin.
pub open spec fn core_plugin_message() -> Seq<char> {
    "官方核心插件不能启用/禁用"@
}

/// Error when `dsh.profile.bundles` is not a list.
pub open spec fn missing_bundles_message() -> Seq<char> {
    "profile 缺少 dsh.profile.bundles 字段"@
}

/// Enabling or disabling `plugin` in a manifest: an error, no change
/// (`Ok(None)`), or the edited document.
pub open spec fn set_enabled_spec(doc: crate::json::JsonV, plugin: Seq<char>, enabled: bool) -> Result<Option<crate::json::JsonV>, Seq<char>> {
    if is_core_spec(plugin) {
        Err(core_plugin_message())
    } else {
        match bundle_items(doc) {
            None => Err(missing_bundles_message()),
            Some(items) => {
                let present = has_str(items, plugin);
                if enabled && !present {
                    Ok(Some(with_bundles(doc, crate::json::JsonV::Array(items.push(crate::json::JsonV::Str(plugin))))))
                } else if !enabled && present {
                    Ok(Some(with_bundles(doc, crate::json::JsonV::Array(without_str(items, plugin)))))
                } else {
                    Ok(None)
                }
            },
        }
    }
}

/// Whether `dsh.profile.bundles` can be created in `doc`.
pub fn bundles_slot_writable_exec(doc: &Json) -> (b: bool)
    ensures
        b == bundles_slot_writable(doc.jv()),
{
    proof { crate::json::lemma_jv_unfold(*doc); }
    let k1 = String::from_str("dsh");
    let k2 = String::from_str("profile");
    match doc {
        Json::Null => true,
        Json::Object(_) => match get_member(doc, &k1) {
            None => true,
            Some(d) => {
                proof { crate::json::lemma_jv_unfold(*d); }
                match d {
                    Json::Null => true,
                    Json::Object(_) => match get_member(d, &k2) {
                        None => true,
                        Some(p) => {
                            proof { crate::json::lemma_jv_unfold(*p); }
                            match p {
                                Json::Null => true,
                                Json::Object(_) => true,
                                _ => false,
                            }
                        },
                    },
                    _ => false,
                }
            },
        },
        _ => false,
    }
}

/// Split a manifest into the parts around `dsh.profile.bundles` and the
/// bundles value itself (`null` when absent).
fn take_bundles(doc: Json, k1: &String, k2: &String, k3: &String) -> (r: (Json, Option<usize>, Json, Option<usize>, Json, Option<usize>, Json, Ghost<(Json, Json)>))
    requires
        bundles_slot_writable(doc.jv()),
        k1@ == "dsh"@,
        k2@ == "profile"@,
        k3@ == "bundles"@,
    ensures
        ({
            let (doc_rest, i1, dsh_rest, i2, prof_rest, i3, old, g) = r;
            let (dsh, prof) = g@;
            &&& crate::json::detached_from(doc_rest, "dsh"@, i1, doc)
            &&& dsh.jv() == crate::json::index_get(doc.jv(), "dsh"@)
            &&& crate::json::detached_from(dsh_rest, "profile"@, i2, dsh)
            &&& prof.jv() == crate::json::index_get(dsh.jv(), "profile"@)
            &&& crate::json::detached_from(prof_rest, "bundles"@, i3, prof)
            &&& old.jv() == crate::json::index_get(prof.jv(), "bundles"@)
            &&& (i3 is Some <==> bundles_of(doc.jv()) is Some)
        }),
{
    let ghost d0 = doc;
    let (doc_rest, dsh, i1) = crate::json::detach(doc, k1);
    let ghost dsh0 = dsh;
    proof {
        crate::json::lemma_jv_unfold(d0);
        crate::json::lemma_jv_unfold(dsh0);
    }
    let (dsh_rest, prof, i2) = crate::json::detach(dsh, k2);
    let ghost prof0 = prof;
    proof { crate::json::lemma_jv_unfold(prof0); }
    let (prof_rest, old, i3) = crate::json::detach(prof, k3);
    (doc_rest, i1, dsh_rest, i2, prof_rest, i3, old, Ghost((dsh0, prof0)))
}

} // verus!

verus! {

/// Whether the string `p` is one of `items`.
fn contains_str(items: &Vec<Json>, p: &String) -> (b: bool)
    ensures
        b == has_str(crate::json::jvs(items@), p@),
{
    let mut i: usize = 0;
    while i < items.len()
        invariant
            i <= items@.len(),
            forall|k: int| 0 <= k < i ==> crate::json::as_str(#[trigger] crate::json::jvs(items@)[k]) != Some(p@),
        decreases items.len() - i,
    {
        match get_str(&items[i]) {
            Some(s) => if *s == *p {
                assert(crate::json::as_str(crate::json::jvs(items@)[i as int]) == Some(p@));
                return true;
            },
            None => {},
        }
        assert(crate::json::jvs(items@)[i as int] == items@[i as int].jv());
        i = i + 1;
    }
    false
}

/// `items` without the string `p`.
fn remove_str(items: Vec<Json>, p: &String) -> (r: Vec<Json>)
    ensures
        crate::json::jvs(r@) == without_str(crate::json::jvs(items@), p@),
{
    let ghost all = crate::json::jvs(items@);
    let mut out: Vec<Json> = Vec::new();
    let mut rest = items;
    let ghost orig = rest@;
    // walk from the front by reversing once, so items can be moved out
    let mut rev: Vec<Json> = Vec::new();
    while rest.len() > 0
        invariant
            orig.len() == rest@.len() + rev@.len(),
            forall|k: int| 0 <= k < rest@.len() ==> rest@[k] == orig[k],
            forall|k: int| 0 <= k < rev@.len() ==> rev@[k] == orig[orig.len() - 1 - k],
        decreases rest.len(),
    {
        let x = rest.pop().unwrap();
        rev.push(x);
    }
    assert(all.take(0) =~= Seq::<crate::json::JsonV>::empty());
    while rev.len() > 0
        invariant
            all == crate::json::jvs(orig),
            rev@.len() <= orig.len(),
            forall|k: int| 0 <= k < rev@.len() ==> rev@[k] == orig[orig.len() - 1 - k],
            crate::json::jvs(out@) == without_str(all.take(orig.len() - rev@.len()), p@),
        decreases rev.len(),
    {
        let ghost n = orig.len() - rev@.len();
        let x = rev.pop().unwrap();
        assert(x == orig[n]);
        assert(all.take(n + 1).drop_last() =~= all.take(n));
        assert(all.take(n + 1).last() == x.jv());
        let keep = match get_str(&x) {
            Some(s) => *s != *p,
            None => true,
        };
        if keep {
            let ghost before = out@;
            out.push(x);
            assert(crate::json::jvs(out@) =~= crate::json::jvs(before).push(x.jv()));
        }
    }
    assert(all.take(orig.len() as int) =~= all);
    out
}

/// Enable (`true`) or disable `plugin` in the manifest `doc` by adding its
/// name to, or removing it from, `dsh.profile.bundles` (created when
/// missing). Official core plugins are refused; `Ok(None)` means the plugin
/// already was in the requested state and nothing needs writing.
pub fn set_plugin_enabled_in(doc: Json, plugin: &str, enabled: bool) -> (r: Result<Option<Json>, String>)
    requires
        bundles_slot_writable(doc.jv()),
    ensures
        match (r, set_enabled_spec(doc.jv(), plugin@, enabled)) {
            (Err(e), Err(m)) => e@ == m,
            (Ok(None), Ok(None)) => true,
            (Ok(Some(j)), Ok(Some(v))) => j.jv() == v,
            _ => false,
        },
{
    if is_core_plugin(plugin) {
        let e = String::from_str("官方核心插件不能启用/禁用");
        proof { reveal_strlit("官方核心插件不能启用/禁用"); }
        return Err(e);
    }
    let k1 = String::from_str("dsh");
    let k2 = String::from_str("profile");
    let k3 = String::from_str("bundles");
    let ghost d0 = doc;
    let (doc_rest, i1, dsh_rest, i2, prof_rest, i3, old, g) = take_bundles(doc, &k1, &k2, &k3);
    let ghost (dsh0, prof0) = g@;
    proof { crate::json::lemma_jv_unfold(old); }
    let mut items: Vec<Json> = match i3 {
        None => Vec::new(),
        Some(_) => match old {
            Json::Array(v) => v,
            _ => {
                let e = String::from_str("profile 缺少 dsh.profile.bundles 字段");
                proof { reveal_strlit("profile 缺少 dsh.profile.bundles 字段"); }
                return Err(e);
            },
        },
    };
    assert(bundle_items(d0.jv()) == Some(crate::json::jvs(items@)));
    let p = String::from_str(plugin);
    let present = contains_str(&items, &p);
    if enabled && !present {
        let ghost before = items@;
        items.push(Json::Str(p));
        assert(crate::json::jvs(items@) =~= crate::json::jvs(before).push(crate::json::JsonV::Str(plugin@)));
    } else if !enabled && present {
        items = remove_str(items, &p);
    } else {
        return Ok(None);
    }
    let arr = Json::Array(items);
    proof { crate::json::lemma_jv_unfold(arr); }
    let prof2 = crate::json::attach(prof_rest, &k3, i3, arr, Ghost(prof0));
    let dsh2 = crate::json::attach(dsh_rest, &k2, i2, prof2, Ghost(dsh0));
    Ok(Some(crate::json::attach(doc_rest, &k1, i1, dsh2, Ghost(d0))))
}

} // verus!

verus! {

/// Keys of `m` outside the `@deepseek-ai/` scope, in order.
pub open spec fn non_ai_keys(m: Seq<(Seq<char>, crate::json::JsonV)>) -> Seq<Seq<char>>
    decreases m.len(),
{
    if m.len() == 0 {
        Seq::empty()
    } else if crate::text::starts_with(m.last().0, "@deepseek-ai/"@) {
        non_ai_keys(m.drop_last())
    } else {
        non_ai_keys(m.drop_last()).push(m.last().0)
    }
}

/// The user plugins declared in `dependencies` (names outside `@deepseek-ai/`).
pub open spec fn user_dep_names(doc: crate::json::JsonV) -> Seq<Seq<char>> {
    match crate::json::get(doc, "dependencies"@) {
        Some(crate::json::JsonV::Object(m)) => non_ai_keys(m),
        _ => Seq::empty(),
    }
}

/// `items` with each of `deps` appended when not yet listed.
pub open spec fn add_missing(items: Seq<crate::json::JsonV>, deps: Seq<Seq<char>>) -> Seq<crate::json::JsonV>
    decreases deps.len(),
{
    if deps.len() == 0 {
        items
    } else {
        let prev = add_missing(items, deps.drop_last());
        if has_str(prev, deps.last()) {
            prev
        } else {
            prev.push(crate::json::JsonV::Str(deps.last()))
        }
    }
}

/// The items that are not user plugins: non-strings and `@deepseek-ai/` names.
pub open spec fn keep_core(items: Seq<crate::json::JsonV>) -> Seq<crate::json::JsonV>
    decreases items.len(),
{
    if items.len() == 0 {
        Seq::empty()
    } else if crate::json::as_str(items.last()) matches Some(s) && !crate::text::starts_with(s, "@deepseek-ai/"@) {
        keep_core(items.drop_last())
    } else {
        keep_core(items.drop_last()).push(items.last())
    }
}

/// Enabling or disabling every user plugin: the number of bundle entries
/// changed and, when there is a change, the edited document.
pub open spec fn set_all_spec(doc: crate::json::JsonV, enabled: bool) -> Result<(int, Option<crate::json::JsonV>), Seq<char>> {
    match bundle_items(doc) {
        None => Err(missing_bundles_message()),
        Some(items) => {
            let newi = if enabled { add_missing(items, user_dep_names(doc)) } else { keep_core(items) };
            let changed = if enabled { newi.len() - items.len() } else { items.len() - newi.len() };
            if changed > 0 {
                Ok((changed, Some(with_bundles(doc, crate::json::JsonV::Array(newi)))))
            } else {
                Ok((0, None))
            }
        },
    }
}

/// `add_missing` only appends.
pub proof fn lemma_add_missing_grows(items: Seq<crate::json::JsonV>, deps: Seq<Seq<char>>)
    ensures
        add_missing(items, deps).len() >= items.len(),
        add_missing(items, deps).len() <= items.len() + deps.len(),
    decreases deps.len(),
{
    if deps.len() > 0 {
        lemma_add_missing_grows(items, deps.drop_last());
    }
}

/// `keep_core` only removes.
pub proof fn lemma_keep_core_shrinks(items: Seq<crate::json::JsonV>)
    ensures
        keep_core(items).len() <= items.len(),
    decreases items.len(),
{
    if items.len() > 0 {
        lemma_keep_core_shrinks(items.drop_last());
    }
}

/// The user plugins declared in `dependencies`.
fn user_deps(doc: &Json) -> (r: Vec<String>)
    ensures
        crate::json::views_of(r@) == user_dep_names(doc.jv()),
{
    let key = String::from_str("dependencies");
    let mut r: Vec<String> = Vec::new();
    match get_member(doc, &key) {
        Some(d) => {
            proof { crate::json::lemma_jv_unfold(*d); }
            match d {
                Json::Object(m) => {
                    let ghost mv = crate::json::members_v(m@);
                    let mut i: usize = 0;
                    assert(mv.take(0) =~= Seq::<(Seq<char>, crate::json::JsonV)>::empty());
                    while i < m.len()
                        invariant
                            i <= m@.len(),
                            mv == crate::json::members_v(m@),
                            crate::json::views_of(r@) == non_ai_keys(mv.take(i as int)),
                        decreases m.len() - i,
                    {
                        assert(mv.take(i + 1).drop_last() =~= mv.take(i as int));
                        assert(mv.take(i + 1).last().0 == m@[i as int].0@);
                        let k = &m[i].0;
                        if !str_starts_with(k.as_str(), "@deepseek-ai/") {
                            let ghost before = r@;
                            r.push(k.clone());
                            assert(crate::json::views_of(r@) =~= crate::json::views_of(before).push(k@));
                        }
                        i = i + 1;
                    }
                    assert(mv.take(m@.len() as int) =~= mv);
                },
                _ => {
                    assert(crate::json::views_of(r@) =~= Seq::<Seq<char>>::empty());
                },
            }
        },
        None => {
            assert(crate::json::views_of(r@) =~= Seq::<Seq<char>>::empty());
        },
    }
    r
}

/// Enable (`true`) or disable every user plugin of the manifest `doc`:
/// enabling appends each user dependency missing from
/// `dsh.profile.bundles`, disabling keeps only the `@deepseek-ai/` entries
/// (and non-string ones). Returns how many entries changed and, when any
/// did, the edited document.
pub fn set_all_plugins_enabled_in(doc: Json, enabled: bool) -> (r: Result<(usize, Option<Json>), String>)
    requires
        bundles_slot_writable(doc.jv()),
    ensures
        match (r, set_all_spec(doc.jv(), enabled)) {
            (Err(e), Err(m)) => e@ == m,
            (Ok((n, None)), Ok((c, None))) => n == c,
            (Ok((n, Some(j))), Ok((c, Some(v)))) => n == c && j.jv() == v,
            _ => false,
        },
{
    let deps = user_deps(&doc);
    let k1 = String::from_str("dsh");
    let k2 = String::from_str("profile");
    let k3 = String::from_str("bundles");
    let ghost d0 = doc;
    let (doc_rest, i1, dsh_rest, i2, prof_rest, i3, old, g) = take_bundles(doc, &k1, &k2, &k3);
    let ghost (dsh0, prof0) = g@;
    proof { crate::json::lemma_jv_unfold(old); }
    let items: Vec<Json> = match i3 {
        None => Vec::new(),
        Some(_) => match old {
            Json::Array(v) => v,
            _ => {
                let e = String::from_str("profile 缺少 dsh.profile.bundles 字段");
                proof { reveal_strlit("profile 缺少 dsh.profile.bundles 字段"); }
                return Err(e);
            },
        },
    };
    let ghost items0 = crate::json::jvs(items@);
    assert(bundle_items(d0.jv()) == Some(items0));
    let orig_len = items.len();
    let mut items = items;
    let changed: usize;
    if enabled {
        let ghost dv = crate::json::views_of(deps@);
        let mut i: usize = 0;
        assert(dv.take(0) =~= Seq::<Seq<char>>::empty());
        while i < deps.len()
            invariant
                i <= deps@.len(),
                dv == crate::json::views_of(deps@),
                crate::json::jvs(items@) == add_missing(items0, dv.take(i as int)),
            decreases deps.len() - i,
        {
            assert(dv.take(i + 1).drop_last() =~= dv.take(i as int));
            assert(dv.take(i + 1).last() == deps@[i as int]@);
            if !contains_str(&items, &deps[i]) {
                let ghost before = items@;
                items.push(Json::Str(deps[i].clone()));
                assert(crate::json::jvs(items@) =~= crate::json::jvs(before).push(crate::json::JsonV::Str(deps@[i as int]@)));
            }
            i = i + 1;
        }
        assert(dv.take(deps@.len() as int) =~= dv);
        proof { lemma_add_missing_grows(items0, dv); }
        changed = items.len() - orig_len;
    } else {
        items = keep_core_items(items);
        proof { lemma_keep_core_shrinks(items0); }
        changed = orig_len - items.len();
    }
    if changed == 0 {
        return Ok((0, None));
    }
    let arr = Json::Array(items);
    proof { crate::json::lemma_jv_unfold(arr); }
    let prof2 = crate::json::attach(prof_rest, &k3, i3, arr, Ghost(prof0));
    let dsh2 = crate::json::attach(dsh_rest, &k2, i2, prof2, Ghost(dsh0));
    Ok((changed, Some(crate::json::attach(doc_rest, &k1, i1, dsh2, Ghost(d0)))))
}

/// The items kept when every user plugin is disabled.
fn keep_core_items(items: Vec<Json>) -> (r: Vec<Json>)
    ensures
        crate::json::jvs(r@) == keep_core(crate::json::jvs(items@)),
{
    let ghost orig = items@;
    let ghost all = crate::json::jvs(orig);
    let mut rest = items;
    let mut rev: Vec<Json> = Vec::new();
    while rest.len() > 0
        invariant
            orig.len() == rest@.len() + rev@.len(),
            forall|k: int| 0 <= k < rest@.len() ==> rest@[k] == orig[k],
            forall|k: int| 0 <= k < rev@.len() ==> rev@[k] == orig[orig.len() - 1 - k],
        decreases rest.len(),
    {
        let x = rest.pop().unwrap();
        rev.push(x);
    }
    let mut out: Vec<Json> = Vec::new();
    assert(all.take(0) =~= Seq::<crate::json::JsonV>::empty());
    while rev.len() > 0
        invariant
            all == crate::json::jvs(orig),
            rev@.len() <= orig.len(),
            forall|k: int| 0 <= k < rev@.len() ==> rev@[k] == orig[orig.len() - 1 - k],
            crate::json::jvs(out@) == keep_core(all.take(orig.len() - rev@.len())),
        decreases rev.len(),
    {
        let ghost n = orig.len() - rev@.len();
        let x = rev.pop().unwrap();
        assert(x == orig[n]);
        assert(all.take(n + 1).drop_last() =~= all.take(n));
        assert(all.take(n + 1).last() == x.jv());
        let keep = match get_str(&x) {
            Some(s) => str_starts_with(s.as_str(), "@deepseek-ai/"),
            None => true,
        };
        if keep {
            let ghost before = out@;
            out.push(x);
            assert(crate::json::jvs(out@) =~= crate::json::jvs(before).push(x.jv()));
        }
    }
    assert(all.take(orig.len() as int) =~= all);
    out
}

} // verus!

verus! {

/// Setting the bundle list on a writable manifest makes it the bundle list,
/// and the result stays writable.
pub proof fn lemma_with_bundles(doc: crate::json::JsonV, arr: crate::json::JsonV)
    requires
        bundles_slot_writable(doc),
    ensures
        bundles_of(with_bundles(doc, arr)) == Some(arr),
        bundles_slot_writable(with_bundles(doc, arr)),
{
    let d = crate::json::index_get(doc, "dsh"@);
    let p = crate::json::index_get(d, "profile"@);
    let p2 = crate::json::index_set(p, "bundles"@, arr);
    let d2 = crate::json::index_set(d, "profile"@, p2);
    crate::json::lemma_get_after_set(p, "bundles"@, arr);
    crate::json::lemma_get_after_set(d, "profile"@, p2);
    crate::json::lemma_get_after_set(doc, "dsh"@, d2);
}

/// Removing a string that is not there changes nothing.
pub proof fn lemma_without_absent(items: Seq<crate::json::JsonV>, p: Seq<char>)
    requires
        !has_str(items, p),
    ensures
        without_str(items, p) == items,
    decreases items.len(),
{
    if items.len() > 0 {
        let t = items.drop_last();
        assert(!has_str(t, p)) by {
            if has_str(t, p) {
                let i = choose|i: int| 0 <= i < t.len() && crate::json::as_str(#[trigger] t[i]) == Some(p);
                assert(items[i] == t[i]);
            }
        }
        lemma_without_absent(t, p);
        assert(crate::json::as_str(items[items.len() - 1]) != Some(p));
        assert(t.push(items.last()) =~= items);
    }
}

/// Law: enabling a plugin twice changes the manifest once; the second
/// request finds it enabled and asks for no write.
pub proof fn law_enable_is_idempotent(doc: crate::json::JsonV, plugin: Seq<char>)
    requires
        bundles_slot_writable(doc),
        set_enabled_spec(doc, plugin, true) is Ok,
        set_enabled_spec(doc, plugin, true)->Ok_0 is Some,
    ensures
        bundles_slot_writable(set_enabled_spec(doc, plugin, true)->Ok_0->Some_0),
        set_enabled_spec(set_enabled_spec(doc, plugin, true)->Ok_0->Some_0, plugin, true)
            == Ok::<Option<crate::json::JsonV>, Seq<char>>(None),
{
    let items = bundle_items(doc)->Some_0;
    let new_items = items.push(crate::json::JsonV::Str(plugin));
    lemma_with_bundles(doc, crate::json::JsonV::Array(new_items));
    assert(crate::json::as_str(new_items[items.len() as int]) == Some(plugin));
    assert(has_str(new_items, plugin));
}

/// Law: enabling a plugin that was not listed and then disabling it again
/// gives back the bundle list it started from.
pub proof fn law_enable_then_disable_restores_bundles(doc: crate::json::JsonV, plugin: Seq<char>)
    requires
        bundles_slot_writable(doc),
        !is_core_spec(plugin),
        bundle_items(doc) is Some,
        !has_str(bundle_items(doc)->Some_0, plugin),
    ensures
        ({
            let d1 = set_enabled_spec(doc, plugin, true)->Ok_0->Some_0;
            &&& set_enabled_spec(doc, plugin, true) is Ok
            &&& set_enabled_spec(doc, plugin, true)->Ok_0 is Some
            &&& set_enabled_spec(d1, plugin, false) is Ok
            &&& set_enabled_spec(d1, plugin, false)->Ok_0 is Some
            &&& bundle_items(set_enabled_spec(d1, plugin, false)->Ok_0->Some_0) == bundle_items(doc)
        }),
{
    let items = bundle_items(doc)->Some_0;
    let new_items = items.push(crate::json::JsonV::Str(plugin));
    let d1 = with_bundles(doc, crate::json::JsonV::Array(new_items));
    lemma_with_bundles(doc, crate::json::JsonV::Array(new_items));
    assert(crate::json::as_str(new_items[items.len() as int]) == Some(plugin));
    assert(has_str(new_items, plugin));
    assert(new_items.drop_last() =~= items);
    lemma_without_absent(items, plugin);
    assert(without_str(new_items, plugin) == items);
    lemma_with_bundles(d1, crate::json::JsonV::Array(items));
}

/// `keep_core` keeps no user plugin.
pub proof fn lemma_keep_core_only_core(items: Seq<crate::json::JsonV>)
    ensures
        forall|i: int| 0 <= i < keep_core(items).len() ==> (crate::json::as_str(#[trigger] keep_core(items)[i]) matches Some(s)
            ==> crate::text::starts_with(s, "@deepseek-ai/"@)),
    decreases items.len(),
{
    if items.len() > 0 {
        lemma_keep_core_only_core(items.drop_last());
    }
}

/// `keep_core` keeps every `@deepseek-ai/` entry of the list.
pub proof fn lemma_keep_core_keeps_core(items: Seq<crate::json::JsonV>, s: Seq<char>)
    requires
        has_str(items, s),
        crate::text::starts_with(s, "@deepseek-ai/"@),
    ensures
        has_str(keep_core(items), s),
    decreases items.len(),
{
    let t = items.drop_last();
    let k = keep_core(items);
    if crate::json::as_str(items.last()) == Some(s) {
        assert(k.last() == items.last());
        assert(crate::json::as_str(k[k.len() - 1]) == Some(s));
    } else {
        let i = choose|i: int| 0 <= i < items.len() && crate::json::as_str(#[trigger] items[i]) == Some(s);
        assert(i < t.len());
        assert(t[i] == items[i]);
        lemma_keep_core_keeps_core(t, s);
        let kt = keep_core(t);
        let j = choose|j: int| 0 <= j < kt.len() && crate::json::as_str(#[trigger] kt[j]) == Some(s);
        assert(k[j] == kt[j]);
    }
}

/// Law: disabling every user plugin leaves no user plugin in the bundle
/// list and keeps every official `@deepseek-ai/` entry.
pub proof fn law_disable_all_keeps_only_core(doc: crate::json::JsonV, s: Seq<char>)
    requires
        bundles_slot_writable(doc),
        set_all_spec(doc, false) is Ok,
        set_all_spec(doc, false)->Ok_0.1 is Some,
    ensures
        ({
            let after = bundle_items(set_all_spec(doc, false)->Ok_0.1->Some_0)->Some_0;
            &&& bundle_items(set_all_spec(doc, false)->Ok_0.1->Some_0) is Some
            &&& forall|i: int| 0 <= i < after.len() ==> (crate::json::as_str(#[trigger] after[i]) matches Some(x)
                ==> crate::text::starts_with(x, "@deepseek-ai/"@))
            &&& (crate::text::starts_with(s, "@deepseek-ai/"@) && has_str(bundle_items(doc)->Some_0, s)) ==> has_str(after, s)
        }),
{
    let items = bundle_items(doc)->Some_0;
    let kept = keep_core(items);
    lemma_with_bundles(doc, crate::json::JsonV::Array(kept));
    lemma_keep_core_only_core(items);
    if crate::text::starts_with(s, "@deepseek-ai/"@) && has_str(items, s) {
        lemma_keep_core_keeps_core(items, s);
    }
}

/// Every dependency ends up listed after `add_missing`.
pub proof fn lemma_add_missing_lists_all(items: Seq<crate::json::JsonV>, deps: Seq<Seq<char>>, k: int)
    requires
        0 <= k < deps.len(),
    ensures
        has_str(add_missing(items, deps), deps[k]),
    decreases deps.len(),
{
    let prev = add_missing(items, deps.drop_last());
    let r = add_missing(items, deps);
    if k < deps.len() - 1 {
        assert(deps.drop_last()[k] == deps[k]);
        lemma_add_missing_lists_all(items, deps.drop_last(), k);
        let i = choose|i: int| 0 <= i < prev.len() && crate::json::as_str(#[trigger] prev[i]) == Some(deps[k]);
        assert(r[i] == prev[i]);
    } else if !has_str(prev, deps.last()) {
        assert(crate::json::as_str(r[prev.len() as int]) == Some(deps[k]));
    }
}

/// Law: after enabling every user plugin, each user dependency is listed
/// in the bundles.
pub proof fn law_enable_all_lists_every_dependency(doc: crate::json::JsonV, k: int)
    requires
        bundles_slot_writable(doc),
        bundle_items(doc) is Some,
        0 <= k < user_dep_names(doc).len(),
    ensures
        set_all_spec(doc, true) is Ok,
        ({
            let after = match set_all_spec(doc, true)->Ok_0.1 {
                Some(d) => bundle_items(d)->Some_0,
                None => bundle_items(doc)->Some_0,
            };
            has_str(after, user_dep_names(doc)[k])
        }),
{
    let items = bundle_items(doc)->Some_0;
    let added = add_missing(items, user_dep_names(doc));
    lemma_add_missing_grows(items, user_dep_names(doc));
    lemma_add_missing_lists_all(items, user_dep_names(doc), k);
    lemma_with_bundles(doc, crate::json::JsonV::Array(added));
    if added.len() == items.len() {
        lemma_add_missing_same_len(items, user_dep_names(doc));
    }
}

/// When nothing was appended, the list is unchanged.
pub proof fn lemma_add_missing_same_len(items: Seq<crate::json::JsonV>, deps: Seq<Seq<char>>)
    requires
        add_missing(items, deps).len() == items.len(),
    ensures
        add_missing(items, deps) == items,
    decreases deps.len(),
{
    if deps.len() > 0 {
        lemma_add_missing_grows(items, deps.drop_last());
        lemma_add_missing_same_len(items, deps.drop_last());
    }
}

} // verus!

verus! {

/// `latest` of an outdated-report entry (`""` when missing).
pub open spec fn latest_of(meta: crate::json::JsonV) -> Seq<char> {
    match crate::json::get(meta, "latest"@) {
        Some(v) => match crate::json::as_str(v) {
            Some(s) => s,
            None => Seq::empty(),
        },
        None => Seq::empty(),
    }
}

/// (package, latest version) of each report entry, in order.
pub open spec fn outdated_pairs(m: Seq<(Seq<char>, crate::json::JsonV)>) -> Seq<(Seq<char>, Seq<char>)> {
    Seq::new(m.len(), |i: int| (m[i].0, latest_of(m[i].1)))
}

/// Packages with a newer version, from the `outdated --format json` report.
pub open spec fn outdated_spec(text: Seq<char>) -> Seq<(Seq<char>, Seq<char>)> {
    let t = crate::text::trim(text);
    if t.len() == 0 {
        Seq::empty()
    } else {
        match crate::json::json_parse(t) {
            Ok(v) => outdated_of_value(v),
            _ => Seq::empty(),
        }
    }
}

/// (package, latest version) of each entry of a parsed report object.
pub open spec fn outdated_of_value(v: crate::json::JsonV) -> Seq<(Seq<char>, Seq<char>)> {
    match v {
        crate::json::JsonV::Object(m) => outdated_pairs(m),
        _ => Seq::empty(),
    }
}

/// Views of a list of string pairs.
pub open spec fn pair_views(v: Seq<(String, String)>) -> Seq<(Seq<char>, Seq<char>)> {
    Seq::new(v.len(), |i: int| (v[i].0@, v[i].1@))
}

/// Extract (package, latest version) from a `pnpm outdated --format json`
/// report (`{"pkg": {"current": "1.0", "latest": "2.0"}, …}`), sorted by
/// package name; empty, malformed or non-object output means no update.
pub fn parse_outdated_json(text: &str) -> (r: Vec<(String, String)>)
    ensures
        pair_views(r@) == outdated_spec(text@),
        forall|i: int, j: int| 0 <= i < j < r@.len() ==> crate::json::str_lt(r@[i].0@, r@[j].0@),
{
    let t = trim_str(text);
    if t.as_str().is_empty() {
        let out: Vec<(String, String)> = Vec::new();
        assert(pair_views(out@) =~= Seq::<(Seq<char>, Seq<char>)>::empty());
        return out;
    }
    match crate::json::parse_json(t.as_str()) {
        Ok(d) => {
            let out = outdated_of(&d);
            proof { crate::json::lemma_jv_unfold(d); }
            assert forall|a: int, b: int| 0 <= a < b < out@.len() implies crate::json::str_lt(out@[a].0@, out@[b].0@) by {
                assert(out@[a].0@ == pair_views(out@)[a].0);
                assert(out@[b].0@ == pair_views(out@)[b].0);
                assert(pair_views(out@).len() == out@.len());
                match d.jv() {
                    crate::json::JsonV::Object(m) => {
                        assert(crate::json::keys_increasing(m));
                        assert(outdated_pairs(m).len() == m.len());
                        assert(outdated_pairs(m)[a].0 == m[a].0);
                        assert(outdated_pairs(m)[b].0 == m[b].0);
                        assert(crate::json::str_lt(m[a].0, m[b].0));
                    },
                    _ => {
                        assert(outdated_of_value(d.jv()).len() == 0);
                    },
                }
            }
            out
        },
        Err(_) => {
            let out: Vec<(String, String)> = Vec::new();
            assert(pair_views(out@) =~= Seq::<(Seq<char>, Seq<char>)>::empty());
            out
        },
    }
}

/// (package, latest version) of each entry of a parsed
/// `pnpm outdated --format json` report, in the report's order; a report
/// that is not an object gives none.
pub fn outdated_of(doc: &Json) -> (r: Vec<(String, String)>)
    ensures
        pair_views(r@) == outdated_of_value(doc.jv()),
{
    let mut out: Vec<(String, String)> = Vec::new();
    proof { crate::json::lemma_jv_unfold(*doc); }
    let latest_key = String::from_str("latest");
    match doc {
        Json::Object(m) => {
            let ghost mv = crate::json::members_v(m@);
            let mut i: usize = 0;
            while i < m.len()
                invariant
                    i <= m@.len(),
                    mv == crate::json::members_v(m@),
                    latest_key@ == "latest"@,
                    pair_views(out@) == outdated_pairs(mv).take(i as int),
                    out@.len() == i,
                decreases m.len() - i,
            {
                let meta = &m[i].1;
                assert(mv[i as int].1 == meta.jv());
                let latest = match get_member(meta, &latest_key) {
                    Some(v) => match get_str(v) {
                        Some(s) => s.clone(),
                        None => String::new(),
                    },
                    None => String::new(),
                };
                assert(latest@ == latest_of(mv[i as int].1));
                let ghost before = out@;
                out.push((m[i].0.clone(), latest));
                assert(pair_views(out@) =~= outdated_pairs(mv).take(i + 1));
                i = i + 1;
            }
            assert(outdated_pairs(mv).take(m@.len() as int) =~= outdated_pairs(mv));
            out
        },
        _ => {
            assert(pair_views(out@) =~= Seq::<(Seq<char>, Seq<char>)>::empty());
            out
        },
    }
}

} // verus!

verus! {

/// Prefix of the error for a manifest that does not parse.
pub open spec fn parse_failure_prefix() -> Seq<char> {
    "解析 package.json 失败: "@
}

/// Turning an edited document into the text to write back.
pub open spec fn rendered(v: crate::json::JsonV) -> Result<Seq<char>, Seq<char>> {
    crate::json::json_render_pretty(v)
}

/// Enabling or disabling `plugin` in the manifest text `text`: `None` when
/// the manifest parses but `dsh.profile.bundles` cannot be created in it;
/// otherwise an error, no change (`Ok(None)`), or the text to write back.
pub open spec fn plugin_edit_spec(text: Seq<char>, plugin: Seq<char>, enabled: bool) -> Option<Result<Option<Seq<char>>, Seq<char>>> {
    if is_core_spec(plugin) {
        Some(Err(core_plugin_message()))
    } else {
        match crate::json::json_parse(text) {
            Err(e) => Some(Err(parse_failure_prefix() + e)),
            Ok(doc) => if !bundles_slot_writable(doc) {
                None
            } else {
                match set_enabled_spec(doc, plugin, enabled) {
                    Err(m) => Some(Err(m)),
                    Ok(None) => Some(Ok(None)),
                    Ok(Some(v)) => match rendered(v) {
                        Ok(s) => Some(Ok(Some(s))),
                        Err(e) => Some(Err(e)),
                    },
                }
            },
        }
    }
}

/// Enabling or disabling every user plugin in the manifest text `text`:
/// `None` when the manifest parses but `dsh.profile.bundles` cannot be
/// created in it; otherwise an error, or how many entries changed with the
/// text to write back when any did.
pub open spec fn all_plugins_edit_spec(text: Seq<char>, enabled: bool) -> Option<Result<(int, Option<Seq<char>>), Seq<char>>> {
    match crate::json::json_parse(text) {
        Err(e) => Some(Err(parse_failure_prefix() + e)),
        Ok(doc) => if !bundles_slot_writable(doc) {
            None
        } else {
            match set_all_spec(doc, enabled) {
                Err(m) => Some(Err(m)),
                Ok((c, None)) => Some(Ok((c, None))),
                Ok((c, Some(v))) => match rendered(v) {
                    Ok(s) => Some(Ok((c, Some(s)))),
                    Err(e) => Some(Err(e)),
                },
            }
        },
    }
}

/// Parse the text of a `package.json`. A parse error comes back as
/// `解析 package.json 失败: ` followed by the parser's message.
pub fn parse_manifest(text: &str) -> (r: Result<Json, String>)
    ensures
        match (r, crate::json::json_parse(text@)) {
            (Ok(j), Ok(v)) => j.jv() == v,
            (Err(e), Err(m)) => e@ == parse_failure_prefix() + m,
            _ => false,
        },
{
    match crate::json::parse_json(text) {
        Ok(d) => Ok(d),
        Err(e) => Err(crate::text::concat_str("解析 package.json 失败: ", e.as_str())),
    }
}

/// Enable (`true`) or disable `plugin` in the text of a profile's
/// `package.json`. Returns `None` when the manifest's `dsh` or
/// `dsh.profile` is neither an object nor `null` (where the list cannot be
/// created), else the outcome: an error, `Ok(None)` when nothing changed,
/// or the pretty-printed text to write back.
pub fn edit_plugin_enabled(text: &str, plugin: &str, enabled: bool) -> (r: Option<Result<Option<String>, String>>)
    ensures
        match (r, plugin_edit_spec(text@, plugin@, enabled)) {
            (None, None) => true,
            (Some(Err(e)), Some(Err(m))) => e@ == m,
            (Some(Ok(None)), Some(Ok(None))) => true,
            (Some(Ok(Some(s))), Some(Ok(Some(t)))) => s@ == t,
            _ => false,
        },
        r matches Some(Ok(Some(s))) ==> edited_doc(text@, plugin@, enabled) matches Some(v)
            && (enabled ==> bundle_names(v).contains(plugin@))
            && (!enabled ==> !bundle_names(v).contains(plugin@))
            && (crate::json::plain_doc(v, crate::json::PLAIN_DEPTH as nat) ==> profile_bundles_spec(s@).0 == bundle_names(v)
                && crate::json::json_parse(s@) is Ok
                && crate::json::sorted_objects(crate::json::json_parse(s@)->Ok_0)
                && crate::json::same_doc(v, crate::json::json_parse(s@)->Ok_0)),
{
    if is_core_plugin(plugin) {
        let e = String::from_str("官方核心插件不能启用/禁用");
        proof { reveal_strlit("官方核心插件不能启用/禁用"); }
        return Some(Err(e));
    }
    let doc = match parse_manifest(text) {
        Ok(d) => d,
        Err(m) => return Some(Err(m)),
    };
    if !bundles_slot_writable_exec(&doc) {
        return None;
    }
    let ghost d = doc.jv();
    match set_plugin_enabled_in(doc, plugin, enabled) {
        Err(m) => Some(Err(m)),
        Ok(None) => Some(Ok(None)),
        Ok(Some(edited)) => match crate::json::render_json_pretty(&edited) {
            Ok(s) => {
                proof {
                    lemma_edit_lists(d, plugin@, enabled);
                    if crate::json::plain_doc(edited.jv(), crate::json::PLAIN_DEPTH as nat) {
                        let w = crate::json::json_parse(s@)->Ok_0;
                        lemma_same_doc_bundle_names(edited.jv(), w);
                    }
                }
                Some(Ok(Some(s)))
            },
            Err(e) => Some(Err(e)),
        },
    }
}

/// Enable (`true`) or disable every user plugin in the text of a profile's
/// `package.json`. Returns `None` when the manifest's `dsh` or
/// `dsh.profile` is neither an object nor `null`, else an error or how many
/// entries changed, with the pretty-printed text to write back when any did.
pub fn edit_all_plugins_enabled(text: &str, enabled: bool) -> (r: Option<Result<(usize, Option<String>), String>>)
    ensures
        match (r, all_plugins_edit_spec(text@, enabled)) {
            (None, None) => true,
            (Some(Err(e)), Some(Err(m))) => e@ == m,
            (Some(Ok((n, None))), Some(Ok((c, None)))) => n == c,
            (Some(Ok((n, Some(s)))), Some(Ok((c, Some(t))))) => n == c && s@ == t,
            _ => false,
        },
        r matches Some(Ok((_, Some(s)))) ==> edited_all_doc(text@, enabled) matches Some(v)
            && (crate::json::plain_doc(v, crate::json::PLAIN_DEPTH as nat) ==> profile_bundles_spec(s@).0 == bundle_names(v)
                && crate::json::json_parse(s@) is Ok
                && crate::json::sorted_objects(crate::json::json_parse(s@)->Ok_0)
                && crate::json::same_doc(v, crate::json::json_parse(s@)->Ok_0)),
{
    let doc = match parse_manifest(text) {
        Ok(d) => d,
        Err(m) => return Some(Err(m)),
    };
    if !bundles_slot_writable_exec(&doc) {
        return None;
    }
    match set_all_plugins_enabled_in(doc, enabled) {
        Err(m) => Some(Err(m)),
        Ok((n, None)) => Some(Ok((n, None))),
        Ok((n, Some(edited))) => match crate::json::render_json_pretty(&edited) {
            Ok(s) => {
                proof {
                    if crate::json::plain_doc(edited.jv(), crate::json::PLAIN_DEPTH as nat) {
                        let w = crate::json::json_parse(s@)->Ok_0;
                        lemma_same_doc_bundle_names(edited.jv(), w);
                    }
                }
                Some(Ok((n, Some(s))))
            },
            Err(e) => Some(Err(e)),
        },
    }
}

/// Two same documents, the first plain and the second read by
/// `serde_json`, list the same bundles.
pub proof fn lemma_same_doc_bundle_names(a: crate::json::JsonV, b: crate::json::JsonV)
    requires
        crate::json::same_doc(a, b),
        crate::json::plain_doc(a, crate::json::PLAIN_DEPTH as nat),
        crate::json::sorted_objects(b),
    ensures
        bundle_names(a) == bundle_names(b),
{
    let d0 = crate::json::PLAIN_DEPTH as nat;
    crate::json::lemma_same_doc_get(a, b, "dsh"@, d0);
    if let Some(x1) = crate::json::get(a, "dsh"@) {
        let y1 = crate::json::get(b, "dsh"@)->Some_0;
        crate::json::lemma_same_doc_get(x1, y1, "profile"@, (d0 - 1) as nat);
        if let Some(x2) = crate::json::get(x1, "profile"@) {
            let y2 = crate::json::get(y1, "profile"@)->Some_0;
            crate::json::lemma_same_doc_get(x2, y2, "bundles"@, (d0 - 2) as nat);
            if let Some(x3) = crate::json::get(x2, "bundles"@) {
                let y3 = crate::json::get(y2, "bundles"@)->Some_0;
                if let crate::json::JsonV::Array(xs) = x3 {
                    let ys = y3->Array_0;
                    crate::json::lemma_same_doc_strings(xs, ys);
                }
            }
        }
    }
}

/// A disabled plugin is no longer listed.
pub proof fn lemma_without_str_unlisted(items: Seq<crate::json::JsonV>, p: Seq<char>)
    ensures
        !crate::json::strings_of(without_str(items, p)).contains(p),
    decreases items.len(),
{
    if items.len() > 0 {
        lemma_without_str_unlisted(items.drop_last(), p);
        let w = without_str(items.drop_last(), p);
        if crate::json::as_str(items.last()) != Some(p) {
            let t = w.push(items.last());
            assert(t.drop_last() =~= w);
            match crate::json::as_str(items.last()) {
                Some(x) => {
                    assert(crate::json::strings_of(t) == crate::json::strings_of(w).push(x));
                    assert(x != p);
                },
                None => {},
            }
        }
    }
}

/// The document enabling or disabling every user plugin in the manifest
/// text `text` writes, if it writes one.
pub open spec fn edited_all_doc(text: Seq<char>, enabled: bool) -> Option<crate::json::JsonV> {
    match crate::json::json_parse(text) {
        Ok(doc) => match set_all_spec(doc, enabled) {
            Ok((_, Some(v))) => Some(v),
            _ => None,
        },
        Err(_) => None,
    }
}

/// The document an edit of the manifest text `text` writes, if it writes one.
pub open spec fn edited_doc(text: Seq<char>, plugin: Seq<char>, enabled: bool) -> Option<crate::json::JsonV> {
    match crate::json::json_parse(text) {
        Ok(doc) => match set_enabled_spec(doc, plugin, enabled) {
            Ok(Some(v)) => Some(v),
            _ => None,
        },
        Err(_) => None,
    }
}

/// The document an enable writes lists the plugin; the one a disable
/// writes does not.
proof fn lemma_edit_lists(doc: crate::json::JsonV, plugin: Seq<char>, enabled: bool)
    requires
        bundles_slot_writable(doc),
        set_enabled_spec(doc, plugin, enabled) matches Ok(Some(_)),
    ensures
        set_enabled_spec(doc, plugin, enabled) matches Ok(Some(v))
            && (enabled ==> bundle_names(v).contains(plugin))
            && (!enabled ==> !bundle_names(v).contains(plugin)),
{
    let items = bundle_items(doc)->Some_0;
    if enabled {
        let n = items.push(crate::json::JsonV::Str(plugin));
        lemma_with_bundles(doc, crate::json::JsonV::Array(n));
        assert(n.drop_last() =~= items);
        let names = crate::json::strings_of(n);
        assert(names == crate::json::strings_of(items).push(plugin));
        assert(names[names.len() - 1] == plugin);
    } else {
        let n = without_str(items, plugin);
        lemma_with_bundles(doc, crate::json::JsonV::Array(n));
        lemma_without_str_unlisted(items, plugin);
    }
}

/// Two same documents, the first plain and the second read by
/// `serde_json`, hold the same `dsh.profile.bundles`, and bundles can be
/// created in the second when they can in the first.
pub proof fn lemma_same_doc_bundles_of(a: crate::json::JsonV, b: crate::json::JsonV)
    requires
        crate::json::same_doc(a, b),
        crate::json::plain_doc(a, crate::json::PLAIN_DEPTH as nat),
        crate::json::sorted_objects(b),
    ensures
        match bundles_of(a) {
            Some(x) => bundles_of(b) matches Some(y) && crate::json::same_doc(x, y),
            None => bundles_of(b) is None,
        },
        bundles_slot_writable(a) ==> bundles_slot_writable(b),
{
    let d0 = crate::json::PLAIN_DEPTH as nat;
    crate::json::lemma_same_doc_get(a, b, "dsh"@, d0);
    if let Some(x1) = crate::json::get(a, "dsh"@) {
        let y1 = crate::json::get(b, "dsh"@)->Some_0;
        crate::json::lemma_same_doc_get(x1, y1, "profile"@, (d0 - 1) as nat);
        if let Some(x2) = crate::json::get(x1, "profile"@) {
            let y2 = crate::json::get(y1, "profile"@)->Some_0;
            crate::json::lemma_same_doc_get(x2, y2, "bundles"@, (d0 - 2) as nat);
        }
    }
}

/// Lists that are the same item by item.
pub open spec fn same_items(x: Seq<crate::json::JsonV>, y: Seq<crate::json::JsonV>) -> bool {
    x.len() == y.len() && forall|i: int| 0 <= i < x.len() ==> crate::json::same_doc(#[trigger] x[i], y[i])
}

/// Same lists list the same strings, and drop the same ones.
pub proof fn lemma_same_items_strings(x: Seq<crate::json::JsonV>, y: Seq<crate::json::JsonV>, p: Seq<char>)
    requires
        same_items(x, y),
    ensures
        has_str(x, p) == has_str(y, p),
        crate::json::strings_of(without_str(x, p)) == crate::json::strings_of(without_str(y, p)),
    decreases x.len(),
{
    assert forall|i: int| 0 <= i < x.len() implies crate::json::as_str(#[trigger] x[i]) == crate::json::as_str(y[i]) by {
        assert(crate::json::same_doc(x[i], y[i]));
    }
    if has_str(x, p) {
        let i = choose|i: int| 0 <= i < x.len() && crate::json::as_str(#[trigger] x[i]) == Some(p);
        assert(crate::json::as_str(y[i]) == Some(p));
    }
    if has_str(y, p) {
        let i = choose|i: int| 0 <= i < y.len() && crate::json::as_str(#[trigger] y[i]) == Some(p);
        assert(crate::json::as_str(x[i]) == Some(p));
    }
    if x.len() > 0 {
        let (xs, ys) = (x.drop_last(), y.drop_last());
        assert forall|i: int| 0 <= i < xs.len() implies crate::json::same_doc(#[trigger] xs[i], ys[i]) by {
            assert(xs[i] == x[i] && ys[i] == y[i]);
        }
        lemma_same_items_strings(xs, ys, p);
        let (wx, wy) = (without_str(xs, p), without_str(ys, p));
        if crate::json::as_str(x.last()) != Some(p) {
            assert(wx.push(x.last()).drop_last() =~= wx);
            assert(wy.push(y.last()).drop_last() =~= wy);
        }
    }
}

/// Enabling a plugin in a manifest file and then disabling it in the file
/// that was written lists, in the end, the bundles the file listed at
/// first. `written` is the text the first edit wrote, read back as that
/// document ([`edit_plugin_enabled`] ensures so for plain documents).
pub proof fn law_file_enable_then_disable(text: Seq<char>, plugin: Seq<char>, written: Seq<char>)
    requires
        crate::json::json_parse(text) is Ok,
        bundles_slot_writable(crate::json::json_parse(text)->Ok_0),
        bundle_items(crate::json::json_parse(text)->Ok_0) is Some,
        !has_str(bundle_items(crate::json::json_parse(text)->Ok_0)->Some_0, plugin),
        !is_core_spec(plugin),
        edited_doc(text, plugin, true) is Some,
        crate::json::plain_doc(edited_doc(text, plugin, true)->Some_0, crate::json::PLAIN_DEPTH as nat),
        crate::json::json_parse(written) is Ok,
        crate::json::sorted_objects(crate::json::json_parse(written)->Ok_0),
        crate::json::same_doc(edited_doc(text, plugin, true)->Some_0, crate::json::json_parse(written)->Ok_0),
    ensures
        plugin_edit_spec(written, plugin, false) is Some,
        edited_doc(written, plugin, false) matches Some(v2)
            && bundle_names(v2) == bundle_names(crate::json::json_parse(text)->Ok_0),
{
    let doc = crate::json::json_parse(text)->Ok_0;
    let items = bundle_items(doc)->Some_0;
    let n = items.push(crate::json::JsonV::Str(plugin));
    let v1 = edited_doc(text, plugin, true)->Some_0;
    let w = crate::json::json_parse(written)->Ok_0;
    lemma_with_bundles(doc, crate::json::JsonV::Array(n));
    lemma_same_doc_bundles_of(v1, w);
    let ys = bundles_of(w)->Some_0->Array_0;
    assert(same_items(n, ys));
    lemma_same_items_strings(n, ys, plugin);
    assert(crate::json::as_str(n[items.len() as int]) == Some(plugin));
    assert(has_str(n, plugin));
    assert(n.drop_last() =~= items);
    lemma_without_absent(items, plugin);
    assert(without_str(n, plugin) == items);
    lemma_with_bundles(w, crate::json::JsonV::Array(without_str(ys, plugin)));
    match bundles_of(doc) {
        Some(crate::json::JsonV::Array(a)) => {},
        _ => {
            assert(items =~= Seq::<crate::json::JsonV>::empty());
        },
    }
}

/// A name is a user key of `m` exactly when some member has it and it is
/// outside `@deepseek-ai/`.
pub proof fn lemma_non_ai_keys_contains(m: Seq<(Seq<char>, crate::json::JsonV)>, x: Seq<char>)
    ensures
        non_ai_keys(m).contains(x) <==> ((exists|i: int| 0 <= i < m.len() && #[trigger] m[i].0 == x)
            && !crate::text::starts_with(x, "@deepseek-ai/"@)),
    decreases m.len(),
{
    if m.len() > 0 {
        let t = m.drop_last();
        lemma_non_ai_keys_contains(t, x);
        let r = non_ai_keys(t);
        if (exists|i: int| 0 <= i < m.len() && #[trigger] m[i].0 == x) {
            let i = choose|i: int| 0 <= i < m.len() && #[trigger] m[i].0 == x;
            if i < m.len() - 1 {
                assert(t[i] == m[i]);
            }
        }
        if (exists|i: int| 0 <= i < t.len() && #[trigger] t[i].0 == x) {
            let i = choose|i: int| 0 <= i < t.len() && #[trigger] t[i].0 == x;
            assert(m[i] == t[i]);
        }
        if !crate::text::starts_with(m.last().0, "@deepseek-ai/"@) {
            assert(r.push(m.last().0)[r.len() as int] == m.last().0);
            if r.push(m.last().0).contains(x) {
                let k = choose|k: int| 0 <= k < r.push(m.last().0).len() && r.push(m.last().0)[k] == x;
                if k < r.len() {
                    assert(r.contains(x));
                }
            }
            if r.contains(x) {
                let k = choose|k: int| 0 <= k < r.len() && r[k] == x;
                assert(r.push(m.last().0)[k] == x);
            }
        }
    }
}

/// Disabling every user plugin in a manifest file, then enabling every one
/// in the file that was written, lists each user dependency of the first
/// file. `written` is the text the first edit wrote, read back as that
/// document ([`edit_all_plugins_enabled`] ensures so for plain documents).
pub proof fn law_file_disable_all_then_enable_all(text: Seq<char>, written: Seq<char>, name: Seq<char>)
    requires
        crate::json::json_parse(text) is Ok,
        bundles_slot_writable(crate::json::json_parse(text)->Ok_0),
        bundle_items(crate::json::json_parse(text)->Ok_0) is Some,
        user_dep_names(crate::json::json_parse(text)->Ok_0).contains(name),
        edited_all_doc(text, false) is Some,
        crate::json::plain_doc(edited_all_doc(text, false)->Some_0, crate::json::PLAIN_DEPTH as nat),
        crate::json::json_parse(written) is Ok,
        crate::json::sorted_objects(crate::json::json_parse(written)->Ok_0),
        crate::json::same_doc(edited_all_doc(text, false)->Some_0, crate::json::json_parse(written)->Ok_0),
    ensures
        all_plugins_edit_spec(written, true) is Some,
        set_all_spec(crate::json::json_parse(written)->Ok_0, true) is Ok,
        ({
            let w = crate::json::json_parse(written)->Ok_0;
            let after = match set_all_spec(w, true)->Ok_0.1 {
                Some(d) => bundle_items(d)->Some_0,
                None => bundle_items(w)->Some_0,
            };
            has_str(after, name)
        }),
{
    let doc = crate::json::json_parse(text)->Ok_0;
    let items = bundle_items(doc)->Some_0;
    let kept = keep_core(items);
    let v1 = edited_all_doc(text, false)->Some_0;
    let w = crate::json::json_parse(written)->Ok_0;
    lemma_with_bundles(doc, crate::json::JsonV::Array(kept));
    assert(v1 == with_bundles(doc, crate::json::JsonV::Array(kept)));
    // `dependencies` is untouched by the edit.
    let d = crate::json::index_get(doc, "dsh"@);
    let p = crate::json::index_get(d, "profile"@);
    let d2 = crate::json::index_set(d, "profile"@, crate::json::index_set(p, "bundles"@, crate::json::JsonV::Array(kept)));
    reveal_strlit("dependencies");
    reveal_strlit("dsh");
    assert("dependencies"@ != "dsh"@) by {
        assert("dependencies"@.len() != "dsh"@.len());
    }
    crate::json::lemma_get_other_after_set(doc, "dsh"@, d2, "dependencies"@);
    let m = crate::json::get(doc, "dependencies"@)->Some_0->Object_0;
    lemma_non_ai_keys_contains(m, name);
    let i = choose|i: int| 0 <= i < m.len() && #[trigger] m[i].0 == name;
    // ... and reads back with the same keys.
    crate::json::lemma_same_doc_get(v1, w, "dependencies"@, crate::json::PLAIN_DEPTH as nat);
    let m2 = crate::json::get(w, "dependencies"@)->Some_0->Object_0;
    assert(crate::json::same_doc(crate::json::JsonV::Object(m), crate::json::JsonV::Object(m2)));
    let j = choose|j: int| 0 <= j < m2.len() && m2[j].0 == m[i].0 && crate::json::same_doc(#[trigger] m[i].1, #[trigger] m2[j].1);
    lemma_non_ai_keys_contains(m2, name);
    assert(user_dep_names(w).contains(name));
    let k = choose|k: int| 0 <= k < user_dep_names(w).len() && user_dep_names(w)[k] == name;
    lemma_same_doc_bundles_of(v1, w);
    law_enable_all_lists_every_dependency(w, k);
}

/// A profile is a web profile exactly when one of its bundles is
/// `dsh-web-app` itself or a scoped `…/dsh-web-app`: a manifest listing
/// `dsh-web-app` is a web profile, as is one listing
/// `@deepseek-ai/dsh-web-app`, and one listing neither is not.
pub proof fn law_web_profiles_are_the_ones_with_the_web_app(doc: crate::json::JsonV)
    ensures
        bundle_names(doc).contains("dsh-web-app"@) ==> bundles_and_web(doc).1,
        (exists|i: int| 0 <= i < bundle_names(doc).len()
            && #[trigger] bundle_names(doc)[i].len() >= 12
            && bundle_names(doc)[i].skip(bundle_names(doc)[i].len() - 12) == "/dsh-web-app"@) ==> bundles_and_web(doc).1,
        bundles_and_web(doc).1 ==> exists|i: int| 0 <= i < bundle_names(doc).len()
            && (#[trigger] bundle_names(doc)[i] == "dsh-web-app"@
                || (bundle_names(doc)[i].len() >= 12 && bundle_names(doc)[i].skip(bundle_names(doc)[i].len() - 12) == "/dsh-web-app"@)),
        bundles_and_web(doc).0 == bundle_names(doc),
{
    reveal_strlit("dsh-web-app");
    reveal_strlit("/dsh-web-app");
    let names = bundle_names(doc);
    if names.contains("dsh-web-app"@) {
        let i = choose|i: int| 0 <= i < names.len() && names[i] == "dsh-web-app"@;
        assert(is_web_bundle(names[i]));
    }
    if exists|i: int| 0 <= i < names.len() && #[trigger] names[i].len() >= 12 && names[i].skip(names[i].len() - 12) == "/dsh-web-app"@ {
        let i = choose|i: int| 0 <= i < names.len() && #[trigger] names[i].len() >= 12 && names[i].skip(names[i].len() - 12) == "/dsh-web-app"@;
        assert(is_web_bundle(names[i]));
    }
    if bundles_and_web(doc).1 {
        let i = choose|i: int| 0 <= i < names.len() && is_web_bundle(#[trigger] names[i]);
        assert(names[i] == "dsh-web-app"@ || crate::text::ends_with(names[i], "/dsh-web-app"@));
    }
}

} // verus!
