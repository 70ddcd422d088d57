//! The recommended plugins offered by the first-run wizard, and which of
//! them the `web` profile already has.
use vstd::prelude::*;
use crate::json::{Json, JsonV, get_member, parse_json, views_of};
use crate::launch::strs;

verus! {

/// A recommended plugin.
#[derive(Debug)]
pub struct RepoPluginItem {
    pub id: String,
    pub name: String,
    pub package_name: String,
    pub description: String,
    /// Whether the `web` profile already lists it.
    pub installed: bool,
    pub version: Option<String>,
    pub category: String,
}

/// Keys of the `dependencies` object, in order (none when it is not one).
pub open spec fn dependency_keys(doc: JsonV) -> Seq<Seq<char>> {
    match crate::json::get(doc, "dependencies"@) {
        Some(JsonV::Object(m)) => crate::plugin_list::member_keys(m),
        _ => Seq::empty(),
    }
}

/// `names` followed by each of `more` that is not yet listed.
pub open spec fn append_new(names: Seq<Seq<char>>, more: Seq<Seq<char>>) -> Seq<Seq<char>>
    decreases more.len(),
{
    if more.len() == 0 {
        names
    } else {
        let before = append_new(names, more.drop_last());
        if before.contains(more.last()) { before } else { before.push(more.last()) }
    }
}

/// Plugins the `web` profile has, from the text of its manifest: its
/// dependencies, then the bundles not among them (nothing when the text
/// does not parse).
pub open spec fn installed_spec(text: Seq<char>) -> Seq<Seq<char>> {
    match crate::json::json_parse(text) {
        Ok(doc) => append_new(dependency_keys(doc), crate::plugins::bundle_names(doc)),
        Err(_) => Seq::empty(),
    }
}

/// Whether `name` is among the strings of `list`.
fn listed(list: &Vec<String>, name: &String) -> (b: bool)
    ensures
        b == views_of(list@).contains(name@),
{
    let mut i: usize = 0;
    while i < list.len()
        invariant
            i <= list@.len(),
            forall|j: int| 0 <= j < i ==> views_of(list@)[j] != name@,
        decreases list.len() - i,
    {
        if list[i] == *name {
            assert(views_of(list@)[i as int] == name@);
            return true;
        }
        i = i + 1;
    }
    false
}

/// Plugins the `web` profile has, from the text of its `package.json`.
pub fn read_installed_dsh_plugins(text: &str) -> (r: Vec<String>)
    ensures
        views_of(r@) == installed_spec(text@),
{
    let doc = match parse_json(text) {
        Ok(d) => d,
        Err(_) => {
            let r: Vec<String> = Vec::new();
            assert(views_of(r@) =~= Seq::<Seq<char>>::empty());
            return r;
        },
    };
    let mut names: Vec<String> = Vec::new();
    let key = String::from_str("dependencies");
    match get_member(&doc, &key) {
        Some(Json::Object(m)) => {
            let ghost keys = crate::plugin_list::member_keys(crate::json::members_v(m@));
            proof {
                crate::json::lemma_jv_unfold(Json::Object(*m));
            }
            let mut i: usize = 0;
            while i < m.len()
                invariant
                    i <= m@.len(),
                    keys == crate::plugin_list::member_keys(crate::json::members_v(m@)),
                    views_of(names@) == keys.take(i as int),
                decreases m.len() - i,
            {
                let ghost before = names@;
                let k = m[i].0.clone();
                let ghost kv = k@;
                assert(keys[i as int] == kv);
                names.push(k);
                assert(views_of(names@) =~= views_of(before).push(kv));
                assert(keys.take(i + 1) =~= keys.take(i as int).push(kv));
                i = i + 1;
            }
            assert(keys.take(m@.len() as int) =~= keys);
            assert(views_of(names@) == dependency_keys(doc.jv()));
        },
        _ => {
            assert(views_of(names@) =~= dependency_keys(doc.jv()));
        },
    }
    let ghost deps = views_of(names@);
    let bundles = crate::plugins::bundle_list(&doc);
    let ghost bs = crate::plugins::bundle_names(doc.jv());
    let mut j: usize = 0;
    while j < bundles.len()
        invariant
            j <= bundles@.len(),
            views_of(bundles@) == bs,
            views_of(names@) == append_new(deps, bs.take(j as int)),
        decreases bundles.len() - j,
    {
        let ghost before = views_of(names@);
        proof {
            let t = bs.take(j + 1);
            assert(t.drop_last() =~= bs.take(j as int));
            assert(t.last() == bundles@[j as int]@);
        }
        if !listed(&names, &bundles[j]) {
            let b = bundles[j].clone();
            names.push(b);
            assert(views_of(names@) =~= before.push(bundles@[j as int]@));
        }
        j = j + 1;
    }
    assert(bs.take(bundles@.len() as int) =~= bs);
    names
}

/// The recommended plugins: (id, name, package, description, category).
pub open spec fn recommended_defs() -> Seq<(Seq<char>, Seq<char>, Seq<char>, Seq<char>, Seq<char>)> {
    seq![
        ("dsh-skin-material-you"@, "Material You 主题皮肤"@, "dsh-skin-material-you"@,
            "Material You (Material 3) 浅深色质感皮肤，优雅动效与精致色彩。"@, "外观主题"@),
        ("dsh-plugin-dashboard"@, "插件版本仪表盘"@, "dsh-plugin-dashboard"@,
            "在设置面板中集中展示已安装插件、检测最新版本并提供一键升级与管理。"@, "扩展增强"@),
        ("dsh-browser-tool"@, "浏览器驱动工具"@, "dsh-browser-tool"@,
            "支持无头 Chromium、CDP 连接与真实 Chrome Relay 控制，网页分析与截图。"@, "核心工具"@),
        ("dsh-ast-edit-tool"@, "AST 结构化代码编辑"@, "dsh-ast-edit-tool"@,
            "基于 ast-grep 的代码结构重构与预览工具，支持高精度代码变换。"@, "核心工具"@),
    ]
}

/// `item` is the recommended plugin `d`, marked installed when listed in `installed`.
pub open spec fn item_matches(item: RepoPluginItem, d: (Seq<char>, Seq<char>, Seq<char>, Seq<char>, Seq<char>), installed: Seq<Seq<char>>) -> bool {
    &&& item.id@ == d.0
    &&& item.name@ == d.1
    &&& item.package_name@ == d.2
    &&& item.description@ == d.3
    &&& item.category@ == d.4
    &&& item.version is None
    &&& item.installed == installed.contains(d.2)
}

/// One recommended plugin.
fn repo_item(id: &str, name: &str, pkg: &str, desc: &str, cat: &str, installed: &Vec<String>) -> (item: RepoPluginItem)
    ensures
        item_matches(item, (id@, name@, pkg@, desc@, cat@), views_of(installed@)),
{
    let p = String::from_str(pkg);
    let is_inst = listed(installed, &p);
    RepoPluginItem {
        id: String::from_str(id),
        name: String::from_str(name),
        package_name: p,
        description: String::from_str(desc),
        installed: is_inst,
        version: None,
        category: String::from_str(cat),
    }
}

/// The recommended plugins, each marked installed when `installed` lists it.
pub fn get_repo_plugins_list(installed: &Vec<String>) -> (r: Vec<RepoPluginItem>)
    ensures
        r@.len() == 4,
        forall|i: int| 0 <= i < 4 ==> item_matches(#[trigger] r@[i], recommended_defs()[i], views_of(installed@)),
{
    let mut out: Vec<RepoPluginItem> = Vec::new();
    out.push(repo_item("dsh-skin-material-you", "Material You 主题皮肤", "dsh-skin-material-you",
        "Material You (Material 3) 浅深色质感皮肤，优雅动效与精致色彩。", "外观主题", installed));
    out.push(repo_item("dsh-plugin-dashboard", "插件版本仪表盘", "dsh-plugin-dashboard",
        "在设置面板中集中展示已安装插件、检测最新版本并提供一键升级与管理。", "扩展增强", installed));
    out.push(repo_item("dsh-browser-tool", "浏览器驱动工具", "dsh-browser-tool",
        "支持无头 Chromium、CDP 连接与真实 Chrome Relay 控制，网页分析与截图。", "核心工具", installed));
    out.push(repo_item("dsh-ast-edit-tool", "AST 结构化代码编辑", "dsh-ast-edit-tool",
        "基于 ast-grep 的代码结构重构与预览工具，支持高精度代码变换。", "核心工具", installed));
    out
}

/// The `dsh` arguments that install `package` into the `web` profile.
pub fn install_plugin_args(package: &str) -> (r: Vec<String>)
    ensures
        strs(r@) == seq!["plugin"@, "--profile"@, "web"@, "add"@, package@],
{
    let mut v: Vec<String> = Vec::new();
    v.push(String::from_str("add"));
    v.push(String::from_str(package));
    assert(strs(v@) =~= seq!["add"@, package@]);
    let r = crate::plugin_ops::plugin_command_args("web", &v);
    assert(strs(r@) =~= seq!["plugin"@, "--profile"@, "web"@, "add"@, package@]);
    r
}

} // verus!
