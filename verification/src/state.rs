//! Persisted settings (`config.toml`), the profile a session runs under and
//! the name dsh gives the session archive of a working directory.
use vstd::prelude::*;
use crate::cwd_map::CwdMap;
use crate::install::opt_string_view;
use crate::json::{Json, JsonV, parse_json, get_member, get_str};
use crate::text::{chars_of, string_from_chars, trim_char_vec, concat_str, str_starts_with};

verus! {

/// The upper-case hexadecimal digits, indexed by their value.
pub open spec fn hex_chars() -> Seq<char> {
    seq!['0', '1', '2', '3', '4', '5', '6', '7', '8', '9', 'A', 'B', 'C', 'D', 'E', 'F']
}

/// A 16-bit code unit as four upper-case hex digits (`{:04X}`).
pub open spec fn hex4(u: nat) -> Seq<char> {
    seq![
        hex_chars()[((u / 4096) % 16) as int],
        hex_chars()[((u / 256) % 16) as int],
        hex_chars()[((u / 16) % 16) as int],
        hex_chars()[(u % 16) as int],
    ]
}

/// The UTF-16 code units of a character (`char::encode_utf16`).
pub open spec fn utf16_units(c: char) -> Seq<nat> {
    let v = c as nat;
    if v < 0x10000 {
        seq![v]
    } else {
        let w = (v - 0x10000) as nat;
        seq![(0xD800 + w / 1024) as nat, (0xDC00 + w % 1024) as nat]
    }
}

/// `~XXXX` for each code unit.
pub open spec fn escaped_units(units: Seq<nat>) -> Seq<char>
    decreases units.len(),
{
    if units.len() == 0 {
        Seq::empty()
    } else {
        escaped_units(units.drop_last()) + seq!['~'] + hex4(units.last())
    }
}

/// One code unit escaped.
proof fn lemma_escaped_one(a: nat)
    ensures
        escaped_units(seq![a]) == seq!['~'] + hex4(a),
{
    assert(seq![a].drop_last() =~= Seq::<nat>::empty());
    assert(escaped_units(Seq::<nat>::empty()) == Seq::<char>::empty());
    assert(Seq::<char>::empty() + seq!['~'] + hex4(a) =~= seq!['~'] + hex4(a));
}

/// Two code units escaped.
proof fn lemma_escaped_two(a: nat, b: nat)
    ensures
        escaped_units(seq![a, b]) == seq!['~'] + hex4(a) + seq!['~'] + hex4(b),
{
    assert(seq![a, b].drop_last() =~= seq![a]);
    assert(seq![a, b].last() == b);
    lemma_escaped_one(a);
}

/// A character kept as it is in a session directory name.
pub open spec fn kept_in_dir_name(c: char) -> bool {
    crate::install::is_ascii_alnum(c) || c == '-' || c == '_' || c == '.'
}

/// How one character of a working directory is written in its session directory name.
pub open spec fn encode_dir_char(c: char) -> Seq<char> {
    if c == '/' || c == '\\' {
        seq!['-']
    } else if kept_in_dir_name(c) {
        seq![c]
    } else {
        escaped_units(utf16_units(c))
    }
}

/// Each character of `s` encoded, in order.
pub open spec fn encode_dir_chars(s: Seq<char>) -> Seq<char>
    decreases s.len(),
{
    if s.len() == 0 {
        Seq::empty()
    } else {
        encode_dir_chars(s.drop_last()) + encode_dir_char(s.last())
    }
}

/// dsh's session archive directory name for a working directory:
/// `--<path>--`, separators as `-` (leading and trailing ones trimmed),
/// other characters outside `[A-Za-z0-9._-]` as `~XXXX` per UTF-16 unit.
pub open spec fn session_dir_name(cwd: Seq<char>) -> Seq<char> {
    seq!['-', '-'] + crate::text::trim_char(encode_dir_chars(cwd), '-') + seq!['-', '-']
}

/// Appends `~XXXX` for the code unit `u` to `out`.
fn push_escaped_unit(out: &mut Vec<char>, u: u32)
    requires
        u < 0x10000,
    ensures
        final(out)@ == old(out)@ + seq!['~'] + hex4(u as nat),
{
    let digits: [char; 16] = ['0', '1', '2', '3', '4', '5', '6', '7', '8', '9', 'A', 'B', 'C', 'D', 'E', 'F'];
    assert(digits@ == hex_chars());
    out.push('~');
    out.push(digits[((u / 4096) % 16) as usize]);
    out.push(digits[((u / 256) % 16) as usize]);
    out.push(digits[((u / 16) % 16) as usize]);
    out.push(digits[(u % 16) as usize]);
    assert(final(out)@ =~= old(out)@ + seq!['~'] + hex4(u as nat)) by {
        let h = hex4(u as nat);
        assert(h[0] == hex_chars()[((u / 4096) % 16) as int]);
    }
}

/// Appends the encoding of `c` to `out`.
fn push_encoded_char(out: &mut Vec<char>, c: char)
    ensures
        final(out)@ == old(out)@ + encode_dir_char(c),
{
    if c == '/' || c == '\\' {
        out.push('-');
        assert(final(out)@ =~= old(out)@ + encode_dir_char(c));
    } else if ('a' <= c && c <= 'z') || ('A' <= c && c <= 'Z') || ('0' <= c && c <= '9') || c == '-' || c == '_' || c == '.' {
        out.push(c);
        assert(final(out)@ =~= old(out)@ + encode_dir_char(c));
    } else {
        let v = c as u32;
        if v < 0x10000 {
            push_escaped_unit(out, v);
            proof {
                assert(utf16_units(c) =~= seq![v as nat]);
                lemma_escaped_one(v as nat);
            }
            assert(final(out)@ =~= old(out)@ + encode_dir_char(c));
        } else {
            let w = v - 0x10000;
            let hi = 0xD800 + w / 1024;
            let lo = 0xDC00 + w % 1024;
            let ghost mid = out@;
            push_escaped_unit(out, hi);
            push_escaped_unit(out, lo);
            proof {
                assert(utf16_units(c) =~= seq![hi as nat, lo as nat]);
                lemma_escaped_two(hi as nat, lo as nat);
            }
            assert(final(out)@ =~= old(out)@ + encode_dir_char(c));
        }
    }
}

/// dsh's session archive directory name for the working directory `cwd`.
pub fn encode_session_dir_name(cwd: &str) -> (name: String)
    ensures
        name@ == session_dir_name(cwd@),
{
    let chars = chars_of(cwd);
    let mut out: Vec<char> = Vec::new();
    let mut i: usize = 0;
    while i < chars.len()
        invariant
            i <= chars@.len(),
            out@ == encode_dir_chars(chars@.take(i as int)),
        decreases chars.len() - i,
    {
        push_encoded_char(&mut out, chars[i]);
        proof {
            let t = chars@.take(i + 1);
            assert(t.drop_last() =~= chars@.take(i as int));
            assert(t.last() == chars@[i as int]);
        }
        i = i + 1;
    }
    assert(chars@.take(chars@.len() as int) =~= chars@);
    let trimmed = trim_char_vec(&out, '-');
    let mut name: Vec<char> = Vec::new();
    name.push('-');
    name.push('-');
    let mut j: usize = 0;
    while j < trimmed.len()
        invariant
            j <= trimmed@.len(),
            name@ == seq!['-', '-'] + trimmed@.take(j as int),
        decreases trimmed.len() - j,
    {
        name.push(trimmed[j]);
        assert(trimmed@.take(j + 1) =~= trimmed@.take(j as int).push(trimmed@[j as int]));
        j = j + 1;
    }
    name.push('-');
    name.push('-');
    assert(trimmed@.take(trimmed@.len() as int) =~= trimmed@);
    assert(name@ =~= session_dir_name(cwd@));
    string_from_chars(&name)
}

/// Default preferred port.
pub const DEFAULT_PORT: u16 = 3080;

/// Default (and reserved) profile name.
pub const DEFAULT_PROFILE: &'static str = "web";

/// The default preferred port.
pub fn default_port() -> (p: u16)
    ensures
        p == DEFAULT_PORT,
{
    DEFAULT_PORT
}

/// The default profile name, `web`.
pub fn default_profile() -> (s: String)
    ensures
        s@ == DEFAULT_PROFILE@,
{
    String::from_str(DEFAULT_PROFILE)
}

/// Persisted application settings.
#[derive(Debug)]
pub struct AppState {
    /// Profile that runs (default `web`).
    pub active_profile: String,
    /// Working directory remembered per profile.
    pub profile_cwds: CwdMap,
    /// Preferred port, default 3080.
    pub preferred_port: u16,
    /// Start with the desktop session.
    pub autostart: bool,
    /// Fail rather than move to another port when the preferred one is taken.
    pub lock_port: bool,
    /// Whether the first-run wizard has been completed.
    pub initialized: bool,
}

impl Default for AppState {
    fn default() -> (s: Self)
        ensures
            s.active_profile@ == DEFAULT_PROFILE@,
            s.profile_cwds.view() == Map::<Seq<char>, Seq<char>>::empty(),
            s.preferred_port == DEFAULT_PORT,
            !s.autostart,
            !s.lock_port,
            !s.initialized,
    {
        AppState {
            active_profile: default_profile(),
            profile_cwds: CwdMap::new(),
            preferred_port: DEFAULT_PORT,
            autostart: false,
            lock_port: false,
            initialized: false,
        }
    }
}

/// What the `toml` crate reads as the top-level string entry `key` of the
/// document `raw`, if `raw` parses and has one.
pub uninterp spec fn toml_top_level_str(raw: Seq<char>, key: Seq<char>) -> Option<Seq<char>>;

/// `raw.parse::<toml::Value>()`, then `Value::get(key)` and `Value::as_str`:
/// the string held by the top-level entry `key`. The contract only names the
/// outcome; TOML parsing itself is not stated.
#[verifier::external_body]
fn toml_string_entry(raw: &str, key: &str) -> (r: Option<String>)
    ensures
        opt_string_view(r) == toml_top_level_str(raw@, key@),
{
    match raw.parse::<toml::Value>() {
        Ok(doc) => match doc.get(key) {
            Some(v) => match v.as_str() {
                Some(s) => Some(s.to_string()),
                None => None,
            },
            None => None,
        },
        Err(_) => None,
    }
}

/// The view of a JSON parse outcome.
pub open spec fn json_result_view(r: Result<Json, String>) -> Result<JsonV, Seq<char>> {
    match r {
        Ok(j) => Ok(j.jv()),
        Err(e) => Err(e@),
    }
}

/// The top-level string `cwd` of a parsed JSON document.
pub open spec fn json_cwd_of(doc: Result<JsonV, Seq<char>>) -> Option<Seq<char>> {
    match doc {
        Ok(v) => match crate::json::get(v, "cwd"@) {
            Some(x) => crate::json::as_str(x),
            None => None,
        },
        Err(_) => None,
    }
}

/// The legacy top-level `cwd` of a config body: the TOML entry, else the JSON member.
pub open spec fn legacy_cwd(raw: Seq<char>) -> Option<Seq<char>> {
    match toml_top_level_str(raw, "cwd"@) {
        Some(s) => Some(s),
        None => json_cwd_of(json_parse_of(raw)),
    }
}

/// What `serde_json` makes of `raw`.
pub open spec fn json_parse_of(raw: Seq<char>) -> Result<JsonV, Seq<char>> {
    crate::json::json_parse(raw)
}

/// The top-level string member `cwd` of a parsed JSON config body.
pub fn json_cwd(doc: &Result<Json, String>) -> (r: Option<String>)
    ensures
        opt_string_view(r) == json_cwd_of(json_result_view(*doc)),
{
    match doc {
        Ok(v) => {
            let key = String::from_str("cwd");
            match get_member(v, &key) {
                Some(x) => match get_str(x) {
                    Some(s) => Some(s.clone()),
                    None => None,
                },
                None => None,
            }
        },
        Err(_) => None,
    }
}

/// Pulls a legacy top-level `cwd` out of a TOML or JSON config body.
pub fn extract_legacy_cwd(raw: &str) -> (r: Option<String>)
    ensures
        opt_string_view(r) == legacy_cwd(raw@),
{
    match toml_string_entry(raw, "cwd") {
        Some(s) => Some(s),
        None => {
            let doc = parse_json(raw);
            proof {
                assert(json_result_view(doc) == crate::json::json_parse(raw@));
            }
            json_cwd(&doc)
        },
    }
}

/// The per-profile directories once a legacy `cwd` is taken over: it becomes
/// the directory of `web` unless `web` already has one.
pub open spec fn with_legacy_cwd(m: Map<Seq<char>, Seq<char>>, cwd: Option<Seq<char>>) -> Map<Seq<char>, Seq<char>> {
    if m.contains_key(DEFAULT_PROFILE@) {
        m
    } else {
        match cwd {
            Some(c) => m.insert(DEFAULT_PROFILE@, c),
            None => m,
        }
    }
}

/// The directory to boot `profile` in: its remembered one when not empty,
/// else `fallback`.
pub open spec fn profile_cwd_spec(m: Map<Seq<char>, Seq<char>>, profile: Seq<char>, fallback: Seq<char>) -> Seq<char> {
    if m.contains_key(profile) && m[profile].len() > 0 {
        m[profile]
    } else {
        fallback
    }
}

impl AppState {
    /// Takes over a legacy top-level `cwd` (already read) as the directory of
    /// `web`, unless `web` has one.
    pub fn adopt_legacy_cwd(&mut self, cwd: Option<String>)
        ensures
            final(self).profile_cwds.view() == with_legacy_cwd(old(self).profile_cwds.view(), opt_string_view(cwd)),
            final(self).active_profile == old(self).active_profile,
            final(self).preferred_port == old(self).preferred_port,
            final(self).autostart == old(self).autostart,
            final(self).lock_port == old(self).lock_port,
            final(self).initialized == old(self).initialized,
    {
        if self.profile_cwds.contains_key(DEFAULT_PROFILE) {
            return;
        }
        if let Some(c) = cwd {
            let _ = self.profile_cwds.insert(default_profile(), c);
        }
    }

    /// Migrates a legacy top-level `cwd` of the config body `raw` into the
    /// directory of `web`, when `web` has none yet.
    pub fn migrate_legacy_cwd(&mut self, raw: &str)
        ensures
            final(self).profile_cwds.view() == with_legacy_cwd(old(self).profile_cwds.view(), legacy_cwd(raw@)),
            final(self).active_profile == old(self).active_profile,
            final(self).preferred_port == old(self).preferred_port,
            final(self).autostart == old(self).autostart,
            final(self).lock_port == old(self).lock_port,
            final(self).initialized == old(self).initialized,
    {
        if self.profile_cwds.contains_key(DEFAULT_PROFILE) {
            return;
        }
        let cwd = extract_legacy_cwd(raw);
        self.adopt_legacy_cwd(cwd);
    }

    /// The working directory to boot `profile` in: its remembered directory,
    /// or `fallback` (the home directory) when there is none or it is empty.
    pub fn profile_cwd(&self, profile: &str, fallback: &str) -> (r: String)
        ensures
            r@ == profile_cwd_spec(self.profile_cwds.view(), profile@, fallback@),
    {
        match self.profile_cwds.get(profile) {
            Some(p) => {
                if p.as_str().is_empty() {
                    String::from_str(fallback)
                } else {
                    p.clone()
                }
            },
            None => String::from_str(fallback),
        }
    }
}

/// The profile forgotten: `name` (never `web`) loses its directory, and the
/// active profile falls back to `web` when it was `name`.
pub open spec fn forget_profile_spec(
    cwds: Map<Seq<char>, Seq<char>>,
    active: Seq<char>,
    name: Seq<char>,
) -> (Map<Seq<char>, Seq<char>>, Seq<char>) {
    if name == DEFAULT_PROFILE@ {
        (cwds, active)
    } else {
        (cwds.remove(name), if active == name { DEFAULT_PROFILE@ } else { active })
    }
}

impl AppState {
    /// Forgets a deleted profile: drops its directory and falls back to `web`
    /// when it was active. `web` itself is reserved and never forgotten;
    /// returns whether `name` was forgotten.
    pub fn forget_profile(&mut self, name: &str) -> (forgotten: bool)
        ensures
            forgotten == (name@ != DEFAULT_PROFILE@),
            (final(self).profile_cwds.view(), final(self).active_profile@)
                == forget_profile_spec(old(self).profile_cwds.view(), old(self).active_profile@, name@),
            final(self).preferred_port == old(self).preferred_port,
            final(self).autostart == old(self).autostart,
            final(self).lock_port == old(self).lock_port,
            final(self).initialized == old(self).initialized,
    {
        if crate::text::str_eq(name, DEFAULT_PROFILE) {
            return false;
        }
        let _ = self.profile_cwds.remove(name);
        if crate::text::str_eq(self.active_profile.as_str(), name) {
            self.active_profile = default_profile();
        }
        true
    }
}

/// Whether `c` occurs in `s`.
fn has_char(s: &Vec<char>, c: char) -> (b: bool)
    ensures
        b == s@.contains(c),
{
    let mut i: usize = 0;
    while i < s.len()
        invariant
            i <= s@.len(),
            forall|j: int| 0 <= j < i ==> s@[j] != c,
        decreases s.len() - i,
    {
        if s[i] == c {
            return true;
        }
        i = i + 1;
    }
    false
}

/// Error for an empty profile name.
pub open spec fn empty_name_message() -> Seq<char> {
    "名称不能为空"@
}

/// Error for a profile name holding a path separator.
pub open spec fn separator_name_message() -> Seq<char> {
    "名称不能包含路径分隔符"@
}

/// Error for the reserved profile name.
pub open spec fn reserved_name_message() -> Seq<char> {
    "`web` 是保留名称，不能用作新 profile"@
}

/// The name a new profile gets from what was typed: trimmed, non-empty,
/// without `/` or `\\`, and not the reserved `web`.
pub open spec fn new_profile_name_spec(input: Seq<char>) -> Result<Seq<char>, Seq<char>> {
    let name = crate::text::trim(input);
    if name.len() == 0 {
        Err(empty_name_message())
    } else if name.contains('/') || name.contains('\\') {
        Err(separator_name_message())
    } else if name == DEFAULT_PROFILE@ {
        Err(reserved_name_message())
    } else {
        Ok(name)
    }
}

/// Checks the name typed for a new profile; the trimmed name, or why it is refused.
pub fn new_profile_name(input: &str) -> (r: Result<String, String>)
    ensures
        match r {
            Ok(n) => new_profile_name_spec(input@) == Ok::<Seq<char>, Seq<char>>(n@),
            Err(e) => new_profile_name_spec(input@) == Err::<Seq<char>, Seq<char>>(e@),
        },
{
    let name = crate::text::trim_str(input);
    let chars = chars_of(name.as_str());
    if chars.len() == 0 {
        return Err(String::from_str("名称不能为空"));
    }
    if has_char(&chars, '/') || has_char(&chars, '\\') {
        return Err(String::from_str("名称不能包含路径分隔符"));
    }
    if crate::text::str_eq(name.as_str(), DEFAULT_PROFILE) {
        return Err(String::from_str("`web` 是保留名称，不能用作新 profile"));
    }
    Ok(name)
}

/// The bundles a new profile starts with.
pub open spec fn template_bundles() -> Seq<JsonV> {
    seq![JsonV::Str("@deepseek-ai/dsh-base"@), JsonV::Str("@deepseek-ai/dsh-web-app"@)]
}

/// The `package.json` document of a new profile named `name`.
pub open spec fn profile_manifest_spec(name: Seq<char>) -> JsonV {
    JsonV::Object(seq![
        ("dependencies"@, JsonV::Object(Seq::empty())),
        ("dsh"@, JsonV::Object(seq![("profile"@, JsonV::Object(seq![("bundles"@, JsonV::Array(template_bundles()))]))])),
        ("name"@, JsonV::Str("dsh-profile-"@ + name)),
        ("private"@, JsonV::Bool(true)),
    ])
}

/// A one-member object.
fn single_member(key: &str, value: Json) -> (j: Json)
    ensures
        j.jv() == JsonV::Object(seq![(key@, value.jv())]),
{
    let mut m: Vec<(String, Json)> = Vec::new();
    m.push((String::from_str(key), value));
    let j = Json::Object(m);
    proof {
        crate::json::lemma_jv_unfold(j);
        assert(crate::json::members_v(m@) =~= seq![(key@, value.jv())]);
    }
    j
}

/// The `package.json` of a new profile: the base and web-app bundles, no
/// dependencies, marked private.
pub fn new_profile_manifest(name: &str) -> (j: Json)
    ensures
        j.jv() == profile_manifest_spec(name@),
{
    let mut bundles: Vec<Json> = Vec::new();
    bundles.push(Json::Str(String::from_str("@deepseek-ai/dsh-base")));
    bundles.push(Json::Str(String::from_str("@deepseek-ai/dsh-web-app")));
    let arr = Json::Array(bundles);
    proof {
        crate::json::lemma_jv_unfold(arr);
        assert(crate::json::jvs(bundles@) =~= template_bundles());
    }
    let profile = single_member("bundles", arr);
    let dsh = single_member("profile", profile);
    let deps = Json::Object(Vec::new());
    proof {
        crate::json::lemma_jv_unfold(deps);
        assert(crate::json::members_v(Seq::<(String, Json)>::empty()) =~= Seq::<(Seq<char>, JsonV)>::empty());
    }
    let mut m: Vec<(String, Json)> = Vec::new();
    m.push((String::from_str("dependencies"), deps));
    m.push((String::from_str("dsh"), dsh));
    m.push((String::from_str("name"), Json::Str(concat_str("dsh-profile-", name))));
    m.push((String::from_str("private"), Json::Bool(true)));
    let j = Json::Object(m);
    proof {
        crate::json::lemma_jv_unfold(j);
        assert(crate::json::members_v(m@) =~= seq![
            ("dependencies"@, JsonV::Object(Seq::empty())),
            ("dsh"@, JsonV::Object(seq![("profile"@, JsonV::Object(seq![("bundles"@, JsonV::Array(template_bundles()))]))])),
            ("name"@, JsonV::Str("dsh-profile-"@ + name@)),
            ("private"@, JsonV::Bool(true)),
        ]);
    }
    j
}

/// The text written to a new profile's `package.json` (pretty JSON), or the
/// serializer's error.
pub fn new_profile_manifest_text(name: &str) -> (r: Result<String, String>)
    ensures
        match r {
            Ok(t) => crate::json::json_render_pretty(profile_manifest_spec(name@)) == Ok::<Seq<char>, Seq<char>>(t@),
            Err(e) => crate::json::json_render_pretty(profile_manifest_spec(name@)) == Err::<Seq<char>, Seq<char>>(e@),
        },
{
    let doc = new_profile_manifest(name);
    crate::json::render_json_pretty(&doc)
}

/// A profile found under `$DSH_HOME/profiles/` (never persisted).
#[derive(Debug)]
pub struct ProfileInfo {
    pub name: String,
    /// The profile directory.
    pub path: String,
    /// Whether the profile hosts `dsh-web-app` (can be launched from the dashboard).
    pub is_web_type: bool,
    /// User plugins among its bundles (those outside `@deepseek-ai/`).
    pub plugins: Vec<String>,
    pub plugin_count: usize,
    /// Working directory bound to the profile.
    pub cwd: String,
    /// Number of session directories archived for `cwd`.
    pub session_count: usize,
    /// Last session activity, in seconds since the Unix epoch, if any.
    pub last_session_time: Option<u64>,
}

impl ProfileInfo {
    /// Whether this is a web-type profile (can be launched by the dashboard).
    pub fn is_web(&self) -> (b: bool)
        ensures
            b == self.is_web_type,
    {
        self.is_web_type
    }
}

/// Whether a directory entry under `profiles/` is a profile: not
/// `node_modules` and not hidden.
pub open spec fn is_profile_dir_spec(name: Seq<char>) -> bool {
    name != "node_modules"@ && !(name.len() > 0 && name[0] == '.')
}

/// Whether the directory entry `name` under `profiles/` is a profile.
pub fn is_profile_dir(name: &str) -> (b: bool)
    ensures
        b == is_profile_dir_spec(name@),
{
    let chars = chars_of(name);
    if crate::text::str_eq(name, "node_modules") {
        return false;
    }
    !(chars.len() > 0 && chars[0] == '.')
}

/// The bundles that are not `@deepseek-ai/` ones, in order.
pub open spec fn user_bundles(b: Seq<Seq<char>>) -> Seq<Seq<char>>
    decreases b.len(),
{
    if b.len() == 0 {
        Seq::empty()
    } else if crate::text::starts_with(b.last(), "@deepseek-ai/"@) {
        user_bundles(b.drop_last())
    } else {
        user_bundles(b.drop_last()).push(b.last())
    }
}

/// The user plugins of a profile: its bundles outside `@deepseek-ai/`, in order.
pub fn user_plugins(bundles: &Vec<String>) -> (r: Vec<String>)
    ensures
        crate::json::views_of(r@) == user_bundles(crate::json::views_of(bundles@)),
{
    let mut out: Vec<String> = Vec::new();
    let mut i: usize = 0;
    while i < bundles.len()
        invariant
            i <= bundles@.len(),
            crate::json::views_of(out@) == user_bundles(crate::json::views_of(bundles@).take(i as int)),
        decreases bundles.len() - i,
    {
        let b = &bundles[i];
        let ghost before = out@;
        proof {
            let t = crate::json::views_of(bundles@).take(i + 1);
            assert(t.drop_last() =~= crate::json::views_of(bundles@).take(i as int));
            assert(t.last() == b@);
        }
        if !str_starts_with(b.as_str(), "@deepseek-ai/") {
            out.push(b.clone());
            assert(crate::json::views_of(out@) =~= crate::json::views_of(before).push(b@));
        }
        i = i + 1;
    }
    assert(crate::json::views_of(bundles@).take(bundles@.len() as int) =~= crate::json::views_of(bundles@));
    out
}

/// `base` joined with the relative path `part`, `/` between them
/// (`Path::join` on Unix).
pub open spec fn join_path(base: Seq<char>, part: Seq<char>) -> Seq<char> {
    if base.len() == 0 || base.last() == '/' {
        base + part
    } else {
        base + seq!['/'] + part
    }
}

/// `base` joined with the relative path `part`.
pub fn join_path_str(base: &str, part: &str) -> (r: String)
    ensures
        r@ == join_path(base@, part@),
{
    let chars = chars_of(base);
    if chars.len() == 0 || chars[chars.len() - 1] == '/' {
        concat_str(base, part)
    } else {
        let with_sep = concat_str(base, "/");
        proof { reveal_strlit("/"); }
        let r = concat_str(with_sep.as_str(), part);
        assert(r@ =~= join_path(base@, part@));
        r
    }
}

/// `config.toml` inside the app's config directory.
pub fn config_path(config_dir: &str) -> (r: String)
    ensures
        r@ == join_path(config_dir@, "config.toml"@),
{
    join_path_str(config_dir, "config.toml")
}

/// Opening the config file from `config_dir`: the path to open, and
/// whether the default settings must be written there first (when the file
/// does not `exist` yet, so that it can always be opened).
pub fn open_config_file(config_dir: &str, exists: bool) -> (r: (String, bool))
    ensures
        r.0@ == join_path(config_dir@, "config.toml"@),
        r.1 == !exists,
{
    (config_path(config_dir), !exists)
}

/// The app's config directory: `<home>/.config/whale-nest`, or
/// `<temp>/whale-nest` without a home directory.
pub fn whale_nest_config_dir(home: Option<&str>, temp_dir: &str) -> (r: String)
    ensures
        r@ == match home {
            Some(h) => join_path(join_path(h@, ".config"@), "whale-nest"@),
            None => join_path(temp_dir@, "whale-nest"@),
        },
{
    match home {
        Some(h) => {
            let base = join_path_str(h, ".config");
            join_path_str(base.as_str(), "whale-nest")
        },
        None => join_path_str(temp_dir, "whale-nest"),
    }
}

/// The first non-empty of the home directory and the current directory,
/// else `.`.
pub open spec fn default_cwd_spec(home: Option<Seq<char>>, current: Option<Seq<char>>) -> Seq<char> {
    if home is Some && home->0.len() > 0 {
        home->0
    } else if current is Some && current->0.len() > 0 {
        current->0
    } else {
        "."@
    }
}

/// The default working directory: the first non-empty of `home` (the home
/// directory) and `current` (the process's current directory), else `.`.
pub fn default_cwd(home: Option<&str>, current: Option<&str>) -> (r: String)
    ensures
        r@ == default_cwd_spec(
            match home { Some(h) => Some(h@), None => None },
            match current { Some(c) => Some(c@), None => None },
        ),
{
    match home {
        Some(h) => if !h.is_empty() {
            return String::from_str(h);
        },
        None => {},
    }
    match current {
        Some(c) => if !c.is_empty() {
            return String::from_str(c);
        },
        None => {},
    }
    let r = String::from_str(".");
    proof { reveal_strlit("."); }
    r
}

/// Sorted by profile name: no entry's name comes before an earlier one's.
pub open spec fn names_sorted(s: Seq<ProfileInfo>) -> bool {
    forall|i: int, j: int| 0 <= i < j < s.len() ==> !crate::json::str_lt(#[trigger] s[j].name@, #[trigger] s[i].name@)
}

/// Inserting `x` at `p` keeps a list sorted by name when `x` sorts no
/// earlier than the entries before `p` and the entry at `p` no earlier than
/// `x`.
proof fn lemma_insert_keeps_sorted(s: Seq<ProfileInfo>, p: int, x: ProfileInfo)
    requires
        names_sorted(s),
        0 <= p <= s.len(),
        forall|k: int| 0 <= k < p ==> !crate::json::str_lt(x.name@, #[trigger] s[k].name@),
        p < s.len() ==> !crate::json::str_lt(s[p].name@, x.name@),
    ensures
        names_sorted(s.insert(p, x)),
{
    let t = s.insert(p, x);
    assert forall|i: int, j: int| 0 <= i < j < t.len() implies !crate::json::str_lt(#[trigger] t[j].name@, #[trigger] t[i].name@) by {
        if j < p {
            assert(t[i] == s[i] && t[j] == s[j]);
        } else if j == p {
            assert(t[i] == s[i] && t[j] == x);
        } else if i == p {
            assert(t[j] == s[j - 1] && t[i] == x);
            if crate::json::str_lt(s[j - 1].name@, x.name@) {
                crate::order::lemma_str_lt_total(s[p].name@, s[j - 1].name@);
                if j - 1 > p && crate::json::str_lt(s[p].name@, s[j - 1].name@) {
                    crate::order::lemma_str_lt_transitive(s[p].name@, s[j - 1].name@, x.name@);
                }
            }
        } else if i < p {
            assert(t[i] == s[i] && t[j] == s[j - 1]);
        } else {
            assert(t[i] == s[i - 1] && t[j] == s[j - 1]);
        }
    }
}

/// The same profiles, sorted by name.
pub fn sort_profiles(v: Vec<ProfileInfo>) -> (r: Vec<ProfileInfo>)
    ensures
        names_sorted(r@),
        r@.to_multiset() == v@.to_multiset(),
{
    broadcast use vstd::seq_lib::group_to_multiset_ensures;
    broadcast use vstd::multiset::group_multiset_axioms;
    let mut out: Vec<ProfileInfo> = Vec::new();
    let mut rest = v;
    let ghost orig = rest@;
    proof {
        vstd::multiset::lemma_multiset_empty_len(out@.to_multiset());
        assert(out@.to_multiset().add(rest@.to_multiset()) =~= orig.to_multiset());
    }
    while rest.len() > 0
        invariant
            names_sorted(out@),
            out@.to_multiset().add(rest@.to_multiset()) == orig.to_multiset(),
        decreases rest.len(),
    {
        let ghost before_rest = rest@;
        let x = rest.pop().unwrap();
        proof {
            assert(before_rest =~= rest@.push(x));
            vstd::seq_lib::to_multiset_build(rest@, x);
        }
        let mut p: usize = 0;
        while p < out.len() && crate::order::str_less(out[p].name.as_str(), x.name.as_str())
            invariant
                p <= out@.len(),
                forall|k: int| 0 <= k < p ==> crate::json::str_lt(#[trigger] out@[k].name@, x.name@),
            decreases out.len() - p,
        {
            p = p + 1;
        }
        let ghost before_out = out@;
        proof {
            assert forall|k: int| 0 <= k < p implies !crate::json::str_lt(x.name@, #[trigger] before_out[k].name@) by {
                crate::order::lemma_str_lt_total(x.name@, before_out[k].name@);
            }
            lemma_insert_keeps_sorted(before_out, p as int, x);
        }
        out.insert(p, x);
        proof {
            vstd::seq_lib::to_multiset_insert(before_out, p as int, x);
            assert(out@.to_multiset() == before_out.to_multiset().insert(x));
            assert(before_rest.to_multiset() == rest@.to_multiset().insert(x));
            assert(out@.to_multiset().add(rest@.to_multiset()) =~= before_out.to_multiset().add(before_rest.to_multiset()));
        }
    }
    proof {
        vstd::seq_lib::to_multiset_len(rest@);
        vstd::multiset::lemma_multiset_empty_len(rest@.to_multiset());
        assert(out@.to_multiset().add(rest@.to_multiset()) =~= out@.to_multiset());
    }
    out
}

/// dsh's home: `$DSH_HOME` when set, else `<home>/.dsh`, else `.dsh`.
pub fn dsh_home(dsh_home_var: Option<&str>, home: Option<&str>) -> (r: String)
    ensures
        r@ == match dsh_home_var {
            Some(d) => d@,
            None => match home {
                Some(h) => join_path(h@, ".dsh"@),
                None => ".dsh"@,
            },
        },
{
    match dsh_home_var {
        Some(d) => String::from_str(d),
        None => match home {
            Some(h) => join_path_str(h, ".dsh"),
            None => String::from_str(".dsh"),
        },
    }
}

/// Where old versions kept their JSON config: under `$XDG_CONFIG_HOME`, else
/// `<home>/.config`, else the temp dir, in `dev.whalenest.desktop/config.json`.
pub fn legacy_json_path(xdg_config_home: Option<&str>, home: Option<&str>, temp_dir: &str) -> (r: String)
    ensures
        r@ == join_path(join_path(
            match xdg_config_home {
                Some(x) => x@,
                None => match home {
                    Some(h) => join_path(h@, ".config"@),
                    None => temp_dir@,
                },
            },
            "dev.whalenest.desktop"@), "config.json"@),
{
    let base = match xdg_config_home {
        Some(x) => String::from_str(x),
        None => match home {
            Some(h) => join_path_str(h, ".config"),
            None => String::from_str(temp_dir),
        },
    };
    let dir = join_path_str(base.as_str(), "dev.whalenest.desktop");
    join_path_str(dir.as_str(), "config.json")
}

} // verus!

verus! {

/// Migrating a legacy `cwd` never replaces a directory `web` already has,
/// and migrating twice leaves the map as migrating once.
pub proof fn law_migration_keeps_web_and_is_idempotent(m: Map<Seq<char>, Seq<char>>, cwd: Option<Seq<char>>)
    ensures
        m.contains_key(DEFAULT_PROFILE@) ==> with_legacy_cwd(m, cwd) == m,
        with_legacy_cwd(with_legacy_cwd(m, cwd), cwd) == with_legacy_cwd(m, cwd),
        forall|k: Seq<char>| k != DEFAULT_PROFILE@ ==> (#[trigger] with_legacy_cwd(m, cwd).contains_key(k) == m.contains_key(k)
            && (m.contains_key(k) ==> with_legacy_cwd(m, cwd)[k] == m[k])),
{
}

/// A directory remembered for a profile is the one it boots in, unless it
/// is empty; a forgotten profile boots in the fallback.
pub proof fn law_profile_cwd_reads_back(m: Map<Seq<char>, Seq<char>>, profile: Seq<char>, dir: Seq<char>, fallback: Seq<char>)
    ensures
        dir.len() > 0 ==> profile_cwd_spec(m.insert(profile, dir), profile, fallback) == dir,
        dir.len() == 0 ==> profile_cwd_spec(m.insert(profile, dir), profile, fallback) == fallback,
        profile_cwd_spec(m.remove(profile), profile, fallback) == fallback,
{
}

/// Forgetting a profile other than `web` drops its directory and never
/// leaves it active; `web` is never forgotten.
pub proof fn law_forgotten_profile_is_gone(cwds: Map<Seq<char>, Seq<char>>, active: Seq<char>, name: Seq<char>)
    ensures
        name != DEFAULT_PROFILE@ ==> !forget_profile_spec(cwds, active, name).0.contains_key(name)
            && forget_profile_spec(cwds, active, name).1 != name,
        forget_profile_spec(cwds, active, DEFAULT_PROFILE@) == (cwds, active),
{
}

} // verus!
