//! Projects in a workspace: what their manifests say of them.
use vstd::prelude::*;

use crate::patterns::{all_matches, find_all, group, group_text, match_views};
use crate::sort::{
    keyed, sort_by_key, sorted, sorting_is_stable, sorting_keeps_every_item, sorting_looks_at_keys,
    with_values, Keyed,
};
use crate::text::{
    after_prefix, before, begins, char_count, ends, ends_with, is_space, lemma_run_before,
    line_list, lines, opt, owned, pieces, printing_characters_are_no_space, run_before, split,
    starts_with, str_eq, str_until_any, strip_prefix, texts, texts_are_cut_at_a_set, trim, trim_any,
    trim_end_any, trim_start_any, trimmed, trimming_a_set_takes_only_the_set, until_any,
    white_space_around_a_text_is_trimmed, word_list, words, words_are_kept_apart_by_white_space,
};
use crate::value::{
    field_trees, json_document, lemma_lookup_push, no_fields, parse_json, parse_toml, toml_document, trees, Data,
    Fields, Json,
};

verus! {

/// A dependency of a project.
#[derive(Debug)]
pub struct Dep {
    pub name: String,
    pub version: String,
    pub kind: String,
}

/// What a dependency says.
pub struct DepView {
    pub name: Seq<char>,
    pub version: Seq<char>,
    pub kind: Seq<char>,
}

impl View for Dep {
    type V = DepView;

    open spec fn view(&self) -> DepView {
        DepView { name: self.name@, version: self.version@, kind: self.kind@ }
    }
}

/// What a list of dependencies says.
pub open spec fn dep_views(v: Seq<Dep>) -> Seq<DepView> {
    Seq::new(v.len(), |i: int| v[i]@)
}

/// A dependency as a document.
pub open spec fn dep_tree(d: DepView) -> Json {
    Json::Table(
        no_fields().push(("name"@, Json::Str(d.name))).push(("version"@, Json::Str(d.version))).push(
            ("kind"@, Json::Str(d.kind)),
        ),
    )
}

/// Dependencies with their names as keys.
pub open spec fn by_name(deps: Seq<DepView>) -> Seq<(Seq<char>, DepView)> {
    Seq::new(deps.len(), |i: int| (deps[i].name, deps[i]))
}

/// Dependencies in the order of their names, those of the same name in the order
/// in which they were found, as documents.
pub open spec fn sorted_dep_trees(deps: Seq<DepView>) -> Seq<Json> {
    Seq::new(deps.len(), |i: int| dep_tree(sorted(by_name(deps))[i].1))
}

/// Sorts dependencies by name.
pub fn sorted_deps(deps: Vec<Dep>) -> (r: Vec<Dep>)
    ensures
        by_name(dep_views(r@)) == sorted(by_name(dep_views(deps@))),
{
    let ghost all = dep_views(deps@);
    let mut items: Vec<Keyed<Dep>> = Vec::new();
    for d in it: deps
        invariant
            it.seq() == deps@,
            items@.len() == it.index(),
            forall|j: int|
                0 <= j < it.index() ==> (#[trigger] items@[j]).key@ == deps@[j].name@ && items@[j].value
                    == deps@[j],
    {
        items.push(Keyed { key: d.name.clone(), value: d });
    }
    let ghost f = |d: Dep| d@;
    let ghost given = keyed(items@);
    proof {
        assert(with_values(given, f) =~= by_name(all));
        sorting_looks_at_keys(given, f);
        lemma_keys_are_names(given);
    }
    let done = sort_by_key(items);
    let ghost order = keyed(done@);
    let mut out: Vec<Dep> = Vec::new();
    for item in it: done
        invariant
            it.seq() == done@,
            out@.len() == it.index(),
            forall|j: int| 0 <= j < it.index() ==> #[trigger] out@[j] == done@[j].value,
    {
        out.push(item.value);
    }
    proof {
        assert forall|j: int| 0 <= j < out@.len() implies by_name(dep_views(out@))[j] == (
        #[trigger] with_values(order, f)[j]) by {
            assert(order[j].0 == order[j].1.name@);
        }
        assert(by_name(dep_views(out@)) =~= with_values(order, f));
    }
    out
}

/// Sorting keeps each dependency under its name.
proof fn lemma_keys_are_names(s: Seq<(Seq<char>, Dep)>)
    requires
        forall|i: int| 0 <= i < s.len() ==> (#[trigger] s[i]).0 == s[i].1.name@,
    ensures
        sorted(s).len() == s.len(),
        forall|i: int| 0 <= i < sorted(s).len() ==> (#[trigger] sorted(s)[i]).0
            == sorted(s)[i].1.name@,
    decreases s.len(),
{
    if s.len() > 0 {
        lemma_keys_are_names(s.drop_last());
        lemma_inserted_name(sorted(s.drop_last()), s.last());
    }
}

/// Inserting keeps each dependency under its name.
proof fn lemma_inserted_name(s: Seq<(Seq<char>, Dep)>, x: (Seq<char>, Dep))
    requires
        forall|i: int| 0 <= i < s.len() ==> (#[trigger] s[i]).0 == s[i].1.name@,
        x.0 == x.1.name@,
    ensures
        crate::sort::inserted(s, x).len() == s.len() + 1,
        forall|i: int| 0 <= i <= s.len() ==> (#[trigger] crate::sort::inserted(s, x)[i]).0
            == crate::sort::inserted(s, x)[i].1.name@,
    decreases s.len(),
{
    if s.len() > 0 && crate::text::before(x.0, s.last().0) {
        lemma_inserted_name(s.drop_last(), x);
    }
}

/// A project as a document.
pub open spec fn project_tree(
    p_type: Seq<char>,
    label: Seq<char>,
    icon: Seq<char>,
    name: Seq<char>,
    version: Seq<char>,
    manifest: Seq<char>,
    dir: Seq<char>,
    deps: Seq<DepView>,
) -> Json {
    Json::Table(
        no_fields().push(("type"@, Json::Str(p_type))).push(("type_label"@, Json::Str(label))).push(
            ("icon"@, Json::Str(icon)),
        ).push(("name"@, Json::Str(name))).push(("version"@, Json::Str(version))).push(
            ("manifest"@, Json::Str(manifest)),
        ).push(("dir"@, Json::Str(dir))).push(
            ("dependencies"@, Json::List(sorted_dep_trees(deps))),
        ),
    )
}

/// Dependencies in the order of their names, as a document.
fn deps_document(deps: Vec<Dep>) -> (r: Data)
    ensures
        r@ == Json::List(sorted_dep_trees(dep_views(deps@))),
{
    let ghost all = dep_views(deps@);
    let done = sorted_deps(deps);
    proof {
        crate::sort::sorting_is_stable(by_name(all));
    }
    let mut out: Vec<Data> = Vec::new();
    for i in 0..done.len()
        invariant
            out@.len() == i,
            by_name(dep_views(done@)) == sorted(by_name(all)),
            forall|j: int| 0 <= j < i ==> #[trigger] out@[j]@ == dep_tree(done@[j]@),
    {
        let d = &done[i];
        let mut f = Fields::new();
        f.put_str("name", d.name.as_str());
        f.put_str("version", d.version.as_str());
        f.put_str("kind", d.kind.as_str());
        out.push(f.done());
    }
    proof {
        assert forall|j: int| 0 <= j < out@.len() implies trees(out@)[j] == (
        #[trigger] sorted_dep_trees(all)[j]) by {
            assert(by_name(dep_views(done@))[j].1 == done@[j]@);
            assert(out@[j]@ == dep_tree(done@[j]@));
        }
        assert(trees(out@) =~= sorted_dep_trees(all));
    }
    Data::list(out)
}

/// A project as a document.
fn project_json(
    p_type: &str,
    label: &str,
    icon: &str,
    name: &str,
    version: &str,
    manifest: &str,
    dir: &str,
    deps: Vec<Dep>,
) -> (r: Data)
    ensures
        r@ == project_tree(
            p_type@,
            label@,
            icon@,
            name@,
            version@,
            manifest@,
            dir@,
            dep_views(deps@),
        ),
{
    let mut f = Fields::new();
    f.put_str("type", p_type);
    f.put_str("type_label", label);
    f.put_str("icon", icon);
    f.put_str("name", name);
    f.put_str("version", version);
    f.put_str("manifest", manifest);
    f.put_str("dir", dir);
    f.put("dependencies", deps_document(deps));
    f.done()
}

/// A name, or that of the directory where it is empty.
pub open spec fn name_or(name: Seq<char>, dir_name: Seq<char>) -> Seq<char> {
    if name.len() == 0 {
        dir_name
    } else {
        name
    }
}

/// A name, or that of the directory where it is empty.
fn named(name: String, dir_name: &str) -> (r: String)
    ensures
        r@ == name_or(name@, dir_name@),
{
    if name.as_str().is_empty() {
        owned(dir_name)
    } else {
        name
    }
}

/// A requirement such as `requests>=2.0,<3` or `torch[vision]~=2.1`, split into
/// the name and what follows it.
pub open spec fn requirement(spec_text: Seq<char>, kind: Seq<char>) -> DepView {
    let s = trimmed(spec_text);
    let name = trimmed(until_any(s, "<>=~![; \t"@));
    DepView {
        name,
        version: match after_prefix(s, name) {
            Some(rest) => trim_end_any(trim_start_any(rest, " ,;\t"@), " ,;\t"@),
            None => seq![],
        },
        kind,
    }
}

/// Splits a requirement into name and version.
pub fn dep_from_spec(spec_text: &str, kind: &str) -> (r: Dep)
    ensures
        r@ == requirement(spec_text@, kind@),
{
    let s = trim(spec_text);
    let name = trim(str_until_any(s.as_str(), "<>=~![; \t").as_str());
    let version = match strip_prefix(s.as_str(), name.as_str()) {
        Some(rest) => trim_any(rest.as_str(), " ,;\t"),
        None => {
            let r = String::new();
            proof {
                assert(r@ =~= seq![]);
            }
            r
        },
    };
    Dep { name, version, kind: owned(kind) }
}

/// The version that a dependency table gives: a text, or the `version` of a
/// table.
pub open spec fn version_of(v: Json) -> Seq<char> {
    match v {
        Json::Str(s) => s,
        Json::Table(_) => v.at("version"@).text_or_empty(),
        _ => seq![],
    }
}

/// The version that a dependency table gives.
fn read_version(v: &Data) -> (r: String)
    ensures
        r@ == version_of(v@),
{
    match v {
        Data::Str(s) => s.clone(),
        Data::Table(_) => v.text_at("version"),
        _ => {
            let r = String::new();
            proof {
                assert(r@ =~= seq![]);
            }
            r
        },
    }
}

/// The dependencies of a table from names to versions. Where versions are only
/// texts, tables have none.
pub open spec fn table_deps(v: Json, kind: Seq<char>, tables: bool) -> Seq<DepView> {
    let fields = v.fields();
    Seq::new(
        fields.len(),
        |i: int|
            DepView {
                name: fields[i].0,
                version: if tables {
                    version_of(fields[i].1)
                } else {
                    fields[i].1.text_or_empty()
                },
                kind,
            },
    )
}

/// Adds the dependencies of the table in a field.
fn add_table_deps(out: &mut Vec<Dep>, doc: &Data, key: &str, kind: &str, tables: bool)
    ensures
        dep_views(final(out)@) == dep_views(old(out)@) + table_deps(doc@.at(key@), kind@, tables),
{
    let ghost before = dep_views(out@);
    let ghost more = table_deps(doc@.at(key@), kind@, tables);
    match doc.table_at(key) {
        Some(fields) => {
            let ghost trees = field_trees(fields@);
            proof {
                assert(before + more.take(0) =~= before);
            }
            for i in 0..fields.len()
                invariant
                    trees == field_trees(fields@),
                    doc@.at(key@).fields() == trees,
                    more == table_deps(doc@.at(key@), kind@, tables),
                    dep_views(out@) == before + more.take(i as int),
            {
                let ghost now = out@;
                let version = if tables {
                    read_version(&fields[i].1)
                } else {
                    match fields[i].1.as_str() {
                        Some(s) => owned(s),
                        None => {
                            let r = String::new();
                            proof {
                                assert(r@ =~= seq![]);
                            }
                            r
                        },
                    }
                };
                let dep = Dep { name: fields[i].0.clone(), version, kind: owned(kind) };
                proof {
                    assert(trees[i as int] == (fields@[i as int].0@, fields@[i as int].1@));
                    assert(dep@ == more[i as int]);
                }
                out.push(dep);
                proof {
                    assert(dep_views(out@) =~= dep_views(now).push(dep@));
                    assert(more.take(i + 1) =~= more.take(i as int).push(more[i as int]));
                    assert(dep_views(out@) =~= before + more.take(i + 1));
                }
            }
            proof {
                assert(more.take(more.len() as int) =~= more);
            }
        },
        None => {
            proof {
                assert(more =~= seq![]);
                assert(dep_views(out@) =~= before + more);
            }
        },
    }
}

/// The requirements in a list, those that are texts.
pub open spec fn list_deps(items: Seq<Json>, kind: Seq<char>) -> Seq<DepView>
    decreases items.len(),
{
    if items.len() == 0 {
        seq![]
    } else {
        let rest = list_deps(items.drop_last(), kind);
        match items.last() {
            Json::Str(s) => rest.push(requirement(s, kind)),
            _ => rest,
        }
    }
}

/// Adds the requirements in a list.
fn add_list_deps(out: &mut Vec<Dep>, items: &Vec<Data>, kind: &str)
    ensures
        dep_views(final(out)@) == dep_views(old(out)@) + list_deps(trees(items@), kind@),
{
    let ghost before = dep_views(out@);
    let ghost all = trees(items@);
    proof {
        assert(before + list_deps(all.take(0), kind@) =~= before);
    }
    for i in 0..items.len()
        invariant
            all == trees(items@),
            dep_views(out@) == before + list_deps(all.take(i as int), kind@),
    {
        let ghost now = dep_views(out@);
        proof {
            assert(all.take(i + 1).drop_last() =~= all.take(i as int));
            assert(all.take(i + 1).last() == items@[i as int]@);
        }
        match items[i].as_str() {
            Some(s) => {
                let dep = dep_from_spec(s, kind);
                out.push(dep);
                proof {
                    assert(dep_views(out@) =~= now.push(dep@));
                    assert(now.push(dep@) =~= before + list_deps(all.take(i + 1), kind@));
                }
            },
            None => {},
        }
    }
    proof {
        assert(all.take(all.len() as int) =~= all);
    }
}

/// The requirements of all groups, each under the name of its group.
pub open spec fn group_deps(groups: Seq<(Seq<char>, Json)>) -> Seq<DepView>
    decreases groups.len(),
{
    if groups.len() == 0 {
        seq![]
    } else {
        group_deps(groups.drop_last()) + list_deps(groups.last().1.elements(), groups.last().0)
    }
}

/// Adds the requirements of all groups.
fn add_group_deps(out: &mut Vec<Dep>, groups: &Vec<(String, Data)>)
    ensures
        dep_views(final(out)@) == dep_views(old(out)@) + group_deps(field_trees(groups@)),
{
    let ghost before = dep_views(out@);
    let ghost all = field_trees(groups@);
    proof {
        assert(before + group_deps(all.take(0)) =~= before);
    }
    for i in 0..groups.len()
        invariant
            all == field_trees(groups@),
            dep_views(out@) == before + group_deps(all.take(i as int)),
    {
        let ghost now = dep_views(out@);
        proof {
            assert(all.take(i + 1).drop_last() =~= all.take(i as int));
            assert(all.take(i + 1).last() == (groups@[i as int].0@, groups@[i as int].1@));
        }
        let ghost more = list_deps(all[i as int].1.elements(), all[i as int].0);
        match groups[i].1.as_list() {
            Some(items) => add_list_deps(out, items, groups[i].0.as_str()),
            None => {
                proof {
                    assert(more =~= seq![]);
                    assert(now + more =~= now);
                }
            },
        }
        proof {
            assert(dep_views(out@) =~= before + group_deps(all.take(i + 1)));
        }
    }
    proof {
        assert(all.take(all.len() as int) =~= all);
    }
}

/// A Rust package.
pub open spec fn cargo_tree(doc: Json, dir_name: Seq<char>, rel: Seq<char>) -> Json {
    let package = doc.at("package"@);
    project_tree(
        "rust"@,
        "Rust"@,
        "🦀"@,
        name_or(package.at("name"@).text_or_empty(), dir_name),
        package.at("version"@).text_or_empty(),
        "Cargo.toml"@,
        rel,
        table_deps(doc.at("dependencies"@), "deps"@, true) + table_deps(
            doc.at("dev-dependencies"@),
            "dev"@,
            true,
        ) + table_deps(doc.at("build-dependencies"@), "build"@, true),
    )
}

/// The text in a field of a field, or the empty text.
fn text_below(doc: &Data, key: &str, inner: &str) -> (r: String)
    ensures
        r@ == doc@.at(key@).at(inner@).text_or_empty(),
{
    match doc.get(key) {
        Some(v) => v.text_at(inner),
        None => {
            let r = String::new();
            proof {
                assert(r@ =~= seq![]);
            }
            r
        },
    }
}

/// No dependencies.
fn no_deps() -> (r: Vec<Dep>)
    ensures
        dep_views(r@) == Seq::<DepView>::empty(),
{
    let r: Vec<Dep> = Vec::new();
    proof {
        assert(dep_views(r@) =~= Seq::<DepView>::empty());
    }
    r
}

/// A Rust package.
pub fn cargo_project(doc: &Data, dir_name: &str, rel: &str) -> (r: Data)
    ensures
        r@ == cargo_tree(doc@, dir_name@, rel@),
{
    let mut deps = no_deps();
    add_table_deps(&mut deps, doc, "dependencies", "deps", true);
    proof {
        assert(Seq::<DepView>::empty() + table_deps(doc@.at("dependencies"@), "deps"@, true)
            =~= table_deps(doc@.at("dependencies"@), "deps"@, true));
    }
    add_table_deps(&mut deps, doc, "dev-dependencies", "dev", true);
    add_table_deps(&mut deps, doc, "build-dependencies", "build", true);
    let name = named(text_below(doc, "package", "name"), dir_name);
    let version = text_below(doc, "package", "version");
    project_json("rust", "Rust", "🦀", name.as_str(), version.as_str(), "Cargo.toml", rel, deps)
}

/// A package with `name`, `version` and two tables of dependencies.
pub open spec fn json_package_tree(
    p_type: Seq<char>,
    label: Seq<char>,
    icon: Seq<char>,
    manifest: Seq<char>,
    first: (Seq<char>, Seq<char>),
    second: (Seq<char>, Seq<char>),
    doc: Json,
    dir_name: Seq<char>,
    rel: Seq<char>,
) -> Json {
    project_tree(
        p_type,
        label,
        icon,
        name_or(doc.at("name"@).text_or_empty(), dir_name),
        doc.at("version"@).text_or_empty(),
        manifest,
        rel,
        table_deps(doc.at(first.0), first.1, false) + table_deps(doc.at(second.0), second.1, false),
    )
}

/// A package with `name`, `version` and two tables of dependencies.
fn json_package(
    p_type: &str,
    label: &str,
    icon: &str,
    manifest: &str,
    first: (&str, &str),
    second: (&str, &str),
    doc: &Data,
    dir_name: &str,
    rel: &str,
) -> (r: Data)
    ensures
        r@ == json_package_tree(
            p_type@,
            label@,
            icon@,
            manifest@,
            (first.0@, first.1@),
            (second.0@, second.1@),
            doc@,
            dir_name@,
            rel@,
        ),
{
    let mut deps = no_deps();
    add_table_deps(&mut deps, doc, first.0, first.1, false);
    proof {
        assert(Seq::<DepView>::empty() + table_deps(doc@.at(first.0@), first.1@, false)
            =~= table_deps(doc@.at(first.0@), first.1@, false));
    }
    add_table_deps(&mut deps, doc, second.0, second.1, false);
    let name = named(doc.text_at("name"), dir_name);
    let version = doc.text_at("version");
    project_json(p_type, label, icon, name.as_str(), version.as_str(), manifest, rel, deps)
}

/// A Node.js package.
pub open spec fn npm_tree(doc: Json, dir_name: Seq<char>, rel: Seq<char>) -> Json {
    json_package_tree(
        "node"@,
        "Node.js"@,
        "⬢"@,
        "package.json"@,
        ("dependencies"@, "deps"@),
        ("devDependencies"@, "dev"@),
        doc,
        dir_name,
        rel,
    )
}

/// A Node.js package.
pub fn npm_project(doc: &Data, dir_name: &str, rel: &str) -> (r: Data)
    ensures
        r@ == npm_tree(doc@, dir_name@, rel@),
{
    json_package(
        "node",
        "Node.js",
        "⬢",
        "package.json",
        ("dependencies", "deps"),
        ("devDependencies", "dev"),
        doc,
        dir_name,
        rel,
    )
}

/// A PHP package.
pub open spec fn composer_tree(doc: Json, dir_name: Seq<char>, rel: Seq<char>) -> Json {
    json_package_tree(
        "php"@,
        "PHP"@,
        "🐘"@,
        "composer.json"@,
        ("require"@, "require"@),
        ("require-dev"@, "dev"@),
        doc,
        dir_name,
        rel,
    )
}

/// A PHP package.
pub fn composer_project(doc: &Data, dir_name: &str, rel: &str) -> (r: Data)
    ensures
        r@ == composer_tree(doc@, dir_name@, rel@),
{
    json_package(
        "php",
        "PHP",
        "🐘",
        "composer.json",
        ("require", "require"),
        ("require-dev", "dev"),
        doc,
        dir_name,
        rel,
    )
}

/// A Python project: its requirements, those of its optional groups, and those
/// that Poetry keeps.
pub open spec fn pyproject_tree(doc: Json, dir_name: Seq<char>, rel: Seq<char>) -> Json {
    let project = doc.at("project"@);
    project_tree(
        "python"@,
        "Python"@,
        "🐍"@,
        name_or(project.at("name"@).text_or_empty(), dir_name),
        project.at("version"@).text_or_empty(),
        "pyproject.toml"@,
        rel,
        list_deps(project.at("dependencies"@).elements(), "deps"@) + group_deps(
            project.at("optional-dependencies"@).fields(),
        ) + table_deps(doc.at("tool"@).at("poetry"@).at("dependencies"@), "poetry"@, true),
    )
}

/// A Python project.
pub fn pyproject_project(doc: &Data, dir_name: &str, rel: &str) -> (r: Data)
    ensures
        r@ == pyproject_tree(doc@, dir_name@, rel@),
{
    let nothing = Data::Null;
    let project = match doc.get("project") {
        Some(p) => p,
        None => &nothing,
    };
    let mut deps = no_deps();
    let ghost listed = list_deps(project@.at("dependencies"@).elements(), "deps"@);
    match project.list_at("dependencies") {
        Some(items) => add_list_deps(&mut deps, items, "deps"),
        None => {
            proof {
                assert(listed =~= seq![]);
            }
        },
    }
    proof {
        assert(dep_views(deps@) =~= listed);
    }
    let ghost grouped = group_deps(project@.at("optional-dependencies"@).fields());
    match project.table_at("optional-dependencies") {
        Some(groups) => add_group_deps(&mut deps, groups),
        None => {
            proof {
                assert(grouped =~= seq![]);
            }
        },
    }
    proof {
        assert(dep_views(deps@) =~= listed + grouped);
    }
    let tool = match doc.get("tool") {
        Some(t) => t,
        None => &nothing,
    };
    let poetry = match tool.get("poetry") {
        Some(p) => p,
        None => &nothing,
    };
    add_table_deps(&mut deps, poetry, "dependencies", "poetry", true);
    let name = named(project.text_at("name"), dir_name);
    let version = project.text_at("version");
    project_json(
        "python",
        "Python",
        "🐍",
        name.as_str(),
        version.as_str(),
        "pyproject.toml",
        rel,
        deps,
    )
}

/// Whether a line of a requirements file is no requirement: blank, a comment, an
/// option or a path.
pub open spec fn is_no_requirement(line: Seq<char>) -> bool {
    line.len() == 0 || line[0] == '#' || line[0] == '-' || line[0] == '.'
}

/// The requirements in the lines of a requirements file.
pub open spec fn requirement_lines(all: Seq<Seq<char>>) -> Seq<DepView>
    decreases all.len(),
{
    if all.len() == 0 {
        seq![]
    } else {
        let rest = requirement_lines(all.drop_last());
        let l = trimmed(all.last());
        if is_no_requirement(l) {
            rest
        } else {
            rest.push(requirement(l, "deps"@))
        }
    }
}

/// A Python project without a project file.
pub open spec fn requirements_tree(text: Seq<char>, dir_name: Seq<char>, rel: Seq<char>) -> Json {
    project_tree(
        "python"@,
        "Python"@,
        "🐍"@,
        dir_name,
        Seq::empty(),
        "requirements.txt"@,
        rel,
        requirement_lines(line_list(text)),
    )
}

/// A Python project without a project file.
pub fn requirements_project(text: &str, dir_name: &str, rel: &str) -> (r: Data)
    ensures
        r@ == requirements_tree(text@, dir_name@, rel@),
{
    let rows = lines(text);
    let ghost all = line_list(text@);
    let mut deps = no_deps();
    proof {
        assert(dep_views(deps@) =~= requirement_lines(all.take(0)));
    }
    for i in 0..rows.len()
        invariant
            all == texts(rows@),
            dep_views(deps@) == requirement_lines(all.take(i as int)),
    {
        let ghost now = dep_views(deps@);
        proof {
            assert(all.take(i + 1).drop_last() =~= all.take(i as int));
            assert(all.take(i + 1).last() == rows@[i as int]@);
        }
        let l = trim(rows[i].as_str());
        let skip = if l.as_str().is_empty() {
            true
        } else {
            let c = l.as_str().get_char(0);
            c == '#' || c == '-' || c == '.'
        };
        if !skip {
            let dep = dep_from_spec(l.as_str(), "deps");
            deps.push(dep);
            proof {
                assert(dep_views(deps@) =~= now.push(dep@));
            }
        }
    }
    proof {
        assert(all.take(all.len() as int) =~= all);
    }
    let version = String::new();
    proof {
        assert(version@ =~= Seq::empty());
    }
    project_json(
        "python",
        "Python",
        "🐍",
        dir_name,
        version.as_str(),
        "requirements.txt",
        rel,
        deps,
    )
}

/// A Go module, as far as its file was read.
pub struct GoView {
    pub module: Seq<char>,
    pub version: Seq<char>,
    pub deps: Seq<DepView>,
    pub in_block: bool,
}

/// The dependency that a requirement of a Go module names, where it names one.
pub open spec fn go_requirement(line: Seq<char>) -> Option<DepView> {
    let parts = word_list(
        trimmed(
            match after_prefix(line, "require "@) {
                Some(rest) => rest,
                None => line,
            },
        ),
    );
    if parts.len() >= 2 {
        Some(
            DepView {
                name: parts[0],
                version: trim_end_any(trim_start_any(parts[1], "\""@), "\""@),
                kind: "require"@,
            },
        )
    } else {
        None
    }
}

/// A Go module after one more line of its file.
pub open spec fn go_line(g: GoView, line: Seq<char>) -> GoView {
    let l = trimmed(line);
    if l.len() == 0 || begins(l, "//"@) {
        g
    } else if begins(l, "module "@) {
        GoView { module: trimmed(l.skip("module "@.len() as int)), ..g }
    } else if begins(l, "go "@) {
        GoView { version: trimmed(l.skip("go "@.len() as int)), ..g }
    } else if l == "require ("@ {
        GoView { in_block: true, ..g }
    } else if l == ")"@ {
        GoView { in_block: false, ..g }
    } else if g.in_block || begins(l, "require "@) {
        match go_requirement(l) {
            Some(dep) => GoView { deps: g.deps.push(dep), ..g },
            None => g,
        }
    } else {
        g
    }
}

/// A Go module, read from the lines of its file.
pub open spec fn go_lines(all: Seq<Seq<char>>) -> GoView
    decreases all.len(),
{
    if all.len() == 0 {
        GoView { module: seq![], version: seq![], deps: seq![], in_block: false }
    } else {
        go_line(go_lines(all.drop_last()), all.last())
    }
}

/// A Go module.
pub open spec fn go_tree(text: Seq<char>, dir_name: Seq<char>, rel: Seq<char>) -> Json {
    let g = go_lines(line_list(text));
    project_tree(
        "go"@,
        "Go"@,
        "🐹"@,
        name_or(pieces(g.module, '/').last(), dir_name),
        g.version,
        "go.mod"@,
        rel,
        g.deps,
    )
}

/// The dependency that a requirement of a Go module names.
fn read_go_requirement(line: &str) -> (r: Option<Dep>)
    ensures
        match go_requirement(line@) {
            Some(d) => r is Some && r->0@ == d,
            None => r is None,
        },
{
    let spec_text = match strip_prefix(line, "require ") {
        Some(rest) => rest,
        None => owned(line),
    };
    let parts = words(trim(spec_text.as_str()).as_str());
    let ghost want = texts(parts@);
    if parts.len() >= 2 {
        proof {
            assert(want[0] == parts@[0]@ && want[1] == parts@[1]@);
        }
        Some(
            Dep {
                name: parts[0].clone(),
                version: trim_any(parts[1].as_str(), "\""),
                kind: owned("require"),
            },
        )
    } else {
        None
    }
}

/// A Go module.
pub fn go_project(text: &str, dir_name: &str, rel: &str) -> (r: Data)
    ensures
        r@ == go_tree(text@, dir_name@, rel@),
{
    let rows = lines(text);
    let ghost all = line_list(text@);
    let mut module = String::new();
    let mut version = String::new();
    let mut deps = no_deps();
    let mut in_block = false;
    proof {
        assert(module@ =~= seq![]);
        assert(version@ =~= seq![]);
        assert(dep_views(deps@) =~= seq![]);
        assert(all.take(0) =~= seq![]);
    }
    for i in 0..rows.len()
        invariant
            all == texts(rows@),
            ({
                let g = go_lines(all.take(i as int));
                &&& module@ == g.module
                &&& version@ == g.version
                &&& dep_views(deps@) == g.deps
                &&& in_block == g.in_block
            }),
    {
        let ghost now = dep_views(deps@);
        proof {
            assert(all.take(i + 1).drop_last() =~= all.take(i as int));
            assert(all.take(i + 1).last() == rows@[i as int]@);
        }
        let l = trim(rows[i].as_str());
        if l.as_str().is_empty() || starts_with(l.as_str(), "//") {
        } else {
            match strip_prefix(l.as_str(), "module ") {
                Some(rest) => {
                    module = trim(rest.as_str());
                },
                None => match strip_prefix(l.as_str(), "go ") {
                    Some(rest) => {
                        version = trim(rest.as_str());
                    },
                    None => {
                        if str_eq(l.as_str(), "require (") {
                            in_block = true;
                        } else if str_eq(l.as_str(), ")") {
                            in_block = false;
                        } else if in_block || starts_with(l.as_str(), "require ") {
                            match read_go_requirement(l.as_str()) {
                                Some(dep) => {
                                    deps.push(dep);
                                    proof {
                                        assert(dep_views(deps@) =~= now.push(dep@));
                                    }
                                },
                                None => {},
                            }
                        }
                    },
                },
            }
        }
    }
    proof {
        assert(all.take(all.len() as int) =~= all);
    }
    let parts = split(module.as_str(), '/');
    let last = parts[parts.len() - 1].clone();
    proof {
        assert(texts(parts@).last() == last@);
    }
    let name = named(last, dir_name);
    project_json("go", "Go", "🐹", name.as_str(), version.as_str(), "go.mod", rel, deps)
}

/// What the groups of each match captured: what that group of the first match
/// captured, where there is a match.
pub open spec fn first_group(found: Seq<Seq<Option<Seq<char>>>>, n: int) -> Option<Seq<char>> {
    if found.len() > 0 {
        Some(group(found[0], n))
    } else {
        None
    }
}

/// What that group of the first match captured, where there is a match.
fn first_group_text(found: &Vec<Vec<Option<String>>>, n: usize) -> (r: Option<String>)
    ensures
        opt(r) == first_group(match_views(found@), n as int),
{
    if found.len() > 0 {
        let r = group_text(&found[0], n);
        proof {
            assert(match_views(found@)[0] == crate::patterns::group_views(found@[0]@));
        }
        Some(r)
    } else {
        None
    }
}

/// Dependencies out of matches: the name is one group, the version another.
pub open spec fn match_deps(
    found: Seq<Seq<Option<Seq<char>>>>,
    name: int,
    version: int,
    kind: Seq<char>,
) -> Seq<DepView> {
    Seq::new(
        found.len(),
        |i: int| DepView { name: group(found[i], name), version: group(found[i], version), kind },
    )
}

/// Dependencies out of matches.
fn deps_of_matches(
    found: &Vec<Vec<Option<String>>>,
    name: usize,
    version: usize,
    kind: &str,
) -> (r: Vec<Dep>)
    ensures
        dep_views(r@) == match_deps(match_views(found@), name as int, version as int, kind@),
{
    let mut deps: Vec<Dep> = Vec::new();
    let ghost all = match_views(found@);
    for i in 0..found.len()
        invariant
            all == match_views(found@),
            deps@.len() == i,
            forall|j: int|
                0 <= j < i ==> #[trigger] deps@[j]@ == match_deps(
                    all,
                    name as int,
                    version as int,
                    kind@,
                )[j],
    {
        proof {
            assert(all[i as int] == crate::patterns::group_views(found@[i as int]@));
        }
        deps.push(
            Dep {
                name: group_text(&found[i], name),
                version: group_text(&found[i], version),
                kind: owned(kind),
            },
        );
    }
    proof {
        assert(dep_views(deps@) =~= match_deps(all, name as int, version as int, kind@));
    }
    deps
}

/// A Maven project, given what was found in its file: dependencies, artifacts
/// and versions.
pub open spec fn maven_found_tree(
    dependencies: Seq<Seq<Option<Seq<char>>>>,
    artifacts: Seq<Seq<Option<Seq<char>>>>,
    versions: Seq<Seq<Option<Seq<char>>>>,
    dir_name: Seq<char>,
    rel: Seq<char>,
) -> Json {
    project_tree(
        "java"@,
        "Java (Maven)"@,
        "☕"@,
        match first_group(artifacts, 1) {
            Some(name) => name,
            None => dir_name,
        },
        match first_group(versions, 1) {
            Some(version) => version,
            None => seq![],
        },
        "pom.xml"@,
        rel,
        match_deps(dependencies, 2, 3, "deps"@),
    )
}

/// A Maven project, given what was found in its file.
pub fn maven_found(
    dependencies: &Vec<Vec<Option<String>>>,
    artifacts: &Vec<Vec<Option<String>>>,
    versions: &Vec<Vec<Option<String>>>,
    dir_name: &str,
    rel: &str,
) -> (r: Data)
    ensures
        r@ == maven_found_tree(
            match_views(dependencies@),
            match_views(artifacts@),
            match_views(versions@),
            dir_name@,
            rel@,
        ),
{
    let deps = deps_of_matches(dependencies, 2, 3, "deps");
    let name = match first_group_text(artifacts, 1) {
        Some(s) => s,
        None => owned(dir_name),
    };
    let version = match first_group_text(versions, 1) {
        Some(s) => s,
        None => {
            let s = String::new();
            proof {
                assert(s@ =~= seq![]);
            }
            s
        },
    };
    project_json(
        "java",
        "Java (Maven)",
        "☕",
        name.as_str(),
        version.as_str(),
        "pom.xml",
        rel,
        deps,
    )
}

/// A Maven project.
pub open spec fn maven_tree(text: Seq<char>, dir_name: Seq<char>, rel: Seq<char>) -> Json {
    maven_found_tree(
        all_matches(
            r"(?s)<dependency>\s*<groupId>([^<]+)</groupId>\s*<artifactId>([^<]+)</artifactId>\s*(?:<version>([^<]+)</version>)?"@,
            text,
        ),
        all_matches(r"<artifactId>([^<]+)</artifactId>"@, text),
        all_matches(r"<version>([^<]+)</version>"@, text),
        dir_name,
        rel,
    )
}

/// A Maven project.
pub fn maven_project(text: &str, dir_name: &str, rel: &str) -> (r: Data)
    ensures
        r@ == maven_tree(text@, dir_name@, rel@),
{
    let dependencies = find_all(
        r"(?s)<dependency>\s*<groupId>([^<]+)</groupId>\s*<artifactId>([^<]+)</artifactId>\s*(?:<version>([^<]+)</version>)?",
        text,
    );
    let artifacts = find_all(r"<artifactId>([^<]+)</artifactId>", text);
    let versions = find_all(r"<version>([^<]+)</version>", text);
    maven_found(&dependencies, &artifacts, &versions, dir_name, rel)
}

/// A project of which only the kind is known.
pub open spec fn bare_tree(
    p_type: Seq<char>,
    label: Seq<char>,
    icon: Seq<char>,
    name: Seq<char>,
    manifest: Seq<char>,
    rel: Seq<char>,
) -> Json {
    project_tree(p_type, label, icon, name, Seq::empty(), manifest, rel, Seq::empty())
}

/// A project of which only the kind is known.
fn bare_project(
    p_type: &str,
    label: &str,
    icon: &str,
    name: &str,
    manifest: &str,
    rel: &str,
) -> (r: Data)
    ensures
        r@ == bare_tree(p_type@, label@, icon@, name@, manifest@, rel@),
{
    let version = String::new();
    proof {
        assert(version@ =~= Seq::empty());
    }
    project_json(p_type, label, icon, name, version.as_str(), manifest, rel, no_deps())
}

/// A Ruby project, given the gems that were found in its file.
pub open spec fn gems_tree(
    gems: Seq<Seq<Option<Seq<char>>>>,
    dir_name: Seq<char>,
    rel: Seq<char>,
) -> Json {
    project_tree(
        "ruby"@,
        "Ruby"@,
        "💎"@,
        dir_name,
        Seq::empty(),
        "Gemfile"@,
        rel,
        Seq::new(
            gems.len(),
            |i: int| DepView { name: group(gems[i], 1), version: seq![], kind: "gem"@ },
        ),
    )
}

/// A Ruby project, given the gems that were found in its file.
pub fn gems_found(gems: &Vec<Vec<Option<String>>>, dir_name: &str, rel: &str) -> (r: Data)
    ensures
        r@ == gems_tree(match_views(gems@), dir_name@, rel@),
{
    let mut deps: Vec<Dep> = Vec::new();
    let ghost all = match_views(gems@);
    let ghost want = Seq::new(
        all.len(),
        |i: int| DepView { name: group(all[i], 1), version: seq![], kind: "gem"@ },
    );
    for i in 0..gems.len()
        invariant
            all == match_views(gems@),
            want == Seq::new(
                all.len(),
                |i: int| DepView { name: group(all[i], 1), version: seq![], kind: "gem"@ },
            ),
            deps@.len() == i,
            forall|j: int| 0 <= j < i ==> #[trigger] deps@[j]@ == want[j],
    {
        proof {
            assert(all[i as int] == crate::patterns::group_views(gems@[i as int]@));
        }
        let version = String::new();
        proof {
            assert(version@ =~= seq![]);
        }
        deps.push(Dep { name: group_text(&gems[i], 1), version, kind: owned("gem") });
    }
    let version = String::new();
    proof {
        assert(version@ =~= Seq::empty());
        assert(dep_views(deps@) =~= want);
    }
    project_json("ruby", "Ruby", "💎", dir_name, version.as_str(), "Gemfile", rel, deps)
}

/// A Ruby project.
pub open spec fn gemfile_tree(text: Seq<char>, dir_name: Seq<char>, rel: Seq<char>) -> Json {
    gems_tree(all_matches("(?m)^\\s*gem\\s+['\"]([^'\"]+)['\"]"@, text), dir_name, rel)
}

/// A Ruby project.
pub fn gemfile_project(text: &str, dir_name: &str, rel: &str) -> (r: Data)
    ensures
        r@ == gemfile_tree(text@, dir_name@, rel@),
{
    gems_found(&find_all("(?m)^\\s*gem\\s+['\"]([^'\"]+)['\"]", text), dir_name, rel)
}

/// A Dart project, given the names that were found in its file.
pub open spec fn dart_tree(
    names: Seq<Seq<Option<Seq<char>>>>,
    dir_name: Seq<char>,
    rel: Seq<char>,
) -> Json {
    bare_tree(
        "dart"@,
        "Dart/Flutter"@,
        "🎯"@,
        match first_group(names, 1) {
            Some(name) => name,
            None => dir_name,
        },
        "pubspec.yaml"@,
        rel,
    )
}

/// A Dart project, given the names that were found in its file.
pub fn dart_found(names: &Vec<Vec<Option<String>>>, dir_name: &str, rel: &str) -> (r: Data)
    ensures
        r@ == dart_tree(match_views(names@), dir_name@, rel@),
{
    let name = match first_group_text(names, 1) {
        Some(s) => s,
        None => owned(dir_name),
    };
    bare_project("dart", "Dart/Flutter", "🎯", name.as_str(), "pubspec.yaml", rel)
}

/// A Dart project.
pub open spec fn pubspec_tree(text: Seq<char>, dir_name: Seq<char>, rel: Seq<char>) -> Json {
    dart_tree(all_matches(r"(?m)^name:\s*([^\s#]+)"@, text), dir_name, rel)
}

/// A Dart project.
pub fn pubspec_project(text: &str, dir_name: &str, rel: &str) -> (r: Data)
    ensures
        r@ == pubspec_tree(text@, dir_name@, rel@),
{
    dart_found(&find_all(r"(?m)^name:\s*([^\s#]+)", text), dir_name, rel)
}

/// Whether a file is the project file of a .NET project.
pub open spec fn is_dotnet_file(name: Seq<char>) -> bool {
    name.len() > 7 && (ends(name, ".csproj"@) || ends(name, ".fsproj"@))
}

/// The first of the files that is the project file of a .NET project.
pub open spec fn first_dotnet(files: Seq<Seq<char>>) -> Option<Seq<char>>
    decreases files.len(),
{
    if files.len() == 0 {
        None
    } else if is_dotnet_file(files[0]) {
        Some(files[0])
    } else {
        first_dotnet(files.drop_first())
    }
}

/// The first of the files that is the project file of a .NET project.
fn find_dotnet(files: &Vec<String>) -> (r: Option<String>)
    ensures
        opt(r) == first_dotnet(texts(files@)),
{
    let ghost all = texts(files@);
    let mut i: usize = 0;
    proof {
        assert(all.skip(0) =~= all);
    }
    while i < files.len()
        invariant
            i <= files@.len(),
            all == texts(files@),
            first_dotnet(all) == first_dotnet(all.skip(i as int)),
        decreases files@.len() - i,
    {
        let name = files[i].as_str();
        if char_count(name) > 7 && (ends_with(name, ".csproj") || ends_with(name, ".fsproj")) {
            return Some(files[i].clone());
        }
        proof {
            assert(all.skip(i as int).drop_first() =~= all.skip(i + 1));
        }
        i = i + 1;
    }
    None
}

/// The manifests that were found in a directory: the texts of those that are
/// read, whether the others exist, and the names of all files.
#[derive(Debug)]
pub struct Manifests {
    pub cargo: Option<String>,
    pub package_json: Option<String>,
    pub pyproject: Option<String>,
    pub requirements: Option<String>,
    pub go_mod: Option<String>,
    pub composer: Option<String>,
    pub pom: Option<String>,
    pub build_gradle: bool,
    pub build_gradle_kts: bool,
    pub settings_gradle: bool,
    pub settings_gradle_kts: bool,
    pub gemfile: Option<String>,
    pub mix: bool,
    pub pubspec: Option<String>,
    pub files: Vec<String>,
}

/// The document of a text, where there is a text and it is one.
pub open spec fn json_of(text: Option<String>) -> Option<Json> {
    match text {
        Some(s) => json_document(s@),
        None => None,
    }
}

/// The TOML document of a text, where there is a text and it is one.
pub open spec fn toml_of(text: Option<String>) -> Option<Json> {
    match text {
        Some(s) => toml_document(s@),
        None => None,
    }
}

/// The Gradle file that was found, where one was.
pub open spec fn gradle_file(m: Manifests) -> Option<Seq<char>> {
    if m.build_gradle {
        Some("build.gradle"@)
    } else if m.build_gradle_kts {
        Some("build.gradle.kts"@)
    } else if m.settings_gradle {
        Some("settings.gradle"@)
    } else if m.settings_gradle_kts {
        Some("settings.gradle.kts"@)
    } else {
        None
    }
}

/// The project that the manifests of one kind stand for, where they stand for
/// one. The kinds, in the order of precedence: Cargo, npm, pyproject,
/// requirements, Go, Composer, Maven, Gradle, Gemfile, mix, pubspec and .NET.
pub open spec fn candidate(m: Manifests, kind: int, dir_name: Seq<char>, rel: Seq<char>) -> Option<
    Json,
> {
    if kind == 0 {
        match toml_of(m.cargo) {
            Some(doc) => Some(cargo_tree(doc, dir_name, rel)),
            None => None,
        }
    } else if kind == 1 {
        match json_of(m.package_json) {
            Some(doc) => Some(npm_tree(doc, dir_name, rel)),
            None => None,
        }
    } else if kind == 2 {
        match toml_of(m.pyproject) {
            Some(doc) => Some(pyproject_tree(doc, dir_name, rel)),
            None => None,
        }
    } else if kind == 3 {
        match m.requirements {
            Some(text) => Some(requirements_tree(text@, dir_name, rel)),
            None => None,
        }
    } else if kind == 4 {
        match m.go_mod {
            Some(text) => Some(go_tree(text@, dir_name, rel)),
            None => None,
        }
    } else if kind == 5 {
        match json_of(m.composer) {
            Some(doc) => Some(composer_tree(doc, dir_name, rel)),
            None => None,
        }
    } else if kind == 6 {
        match m.pom {
            Some(text) => Some(maven_tree(text@, dir_name, rel)),
            None => None,
        }
    } else if kind == 7 {
        match gradle_file(m) {
            Some(file) => Some(
                bare_tree("java"@, "Java (Gradle)"@, "☕"@, dir_name, file, rel),
            ),
            None => None,
        }
    } else if kind == 8 {
        match m.gemfile {
            Some(text) => Some(gemfile_tree(text@, dir_name, rel)),
            None => None,
        }
    } else if kind == 9 {
        if m.mix {
            Some(bare_tree("elixir"@, "Elixir"@, "💧"@, dir_name, "mix.exs"@, rel))
        } else {
            None
        }
    } else if kind == 10 {
        match m.pubspec {
            Some(text) => Some(pubspec_tree(text@, dir_name, rel)),
            None => None,
        }
    } else if kind == 11 {
        match first_dotnet(texts(m.files@)) {
            Some(file) => Some(bare_tree("dotnet"@, ".NET"@, "🔷"@, file, file, rel)),
            None => None,
        }
    } else {
        None
    }
}

/// The first project that manifests of that kind or a later one stand for.
pub open spec fn first_candidate(
    m: Manifests,
    kind: int,
    dir_name: Seq<char>,
    rel: Seq<char>,
) -> Option<Json>
    decreases 12 - kind,
{
    if kind >= 12 {
        None
    } else {
        match candidate(m, kind, dir_name, rel) {
            Some(p) => Some(p),
            None => first_candidate(m, kind + 1, dir_name, rel),
        }
    }
}

/// The project in a directory.
pub open spec fn project_in(m: Manifests, dir_name: Seq<char>, rel: Seq<char>) -> Option<Json> {
    first_candidate(m, 0, dir_name, rel)
}

/// A kind of manifest takes precedence over all later ones: the project is the
/// one of the first kind that stands for one, and there is none where no kind
/// does.
pub proof fn earlier_manifests_take_precedence(
    m: Manifests,
    kind: int,
    dir_name: Seq<char>,
    rel: Seq<char>,
)
    requires
        0 <= kind <= 12,
        forall|k: int| 0 <= k < kind ==> (#[trigger] candidate(m, k, dir_name, rel)) is None,
        kind < 12 ==> candidate(m, kind, dir_name, rel) is Some,
    ensures
        project_in(m, dir_name, rel) == candidate(m, kind, dir_name, rel),
{
    lemma_first_candidate(m, 0, kind, dir_name, rel);
}

/// The first candidate from one kind on is that of a later kind, where those
/// between stand for nothing.
proof fn lemma_first_candidate(
    m: Manifests,
    from: int,
    kind: int,
    dir_name: Seq<char>,
    rel: Seq<char>,
)
    requires
        0 <= from <= kind <= 12,
        forall|k: int| from <= k < kind ==> (#[trigger] candidate(m, k, dir_name, rel)) is None,
        kind < 12 ==> candidate(m, kind, dir_name, rel) is Some,
    ensures
        first_candidate(m, from, dir_name, rel) == candidate(m, kind, dir_name, rel),
    decreases kind - from,
{
    if from < kind {
        assert(candidate(m, from, dir_name, rel) is None);
        lemma_first_candidate(m, from + 1, kind, dir_name, rel);
    }
}

/// What a document says, where there is one.
pub open spec fn data_view(d: Option<Data>) -> Option<Json> {
    match d {
        Some(v) => Some(v@),
        None => None,
    }
}

/// The TOML document of a text, where there is a text and it is one.
fn read_toml(text: &Option<String>) -> (r: Option<Data>)
    ensures
        data_view(r) == toml_of(*text),
{
    match text {
        Some(s) => parse_toml(s.as_str()),
        None => None,
    }
}

/// The JSON document of a text, where there is a text and it is one.
fn read_json(text: &Option<String>) -> (r: Option<Data>)
    ensures
        data_view(r) == json_of(*text),
{
    match text {
        Some(s) => parse_json(s.as_str()),
        None => None,
    }
}

/// The Gradle file that was found, where one was.
fn find_gradle(m: &Manifests) -> (r: Option<String>)
    ensures
        opt(r) == gradle_file(*m),
{
    if m.build_gradle {
        Some(owned("build.gradle"))
    } else if m.build_gradle_kts {
        Some(owned("build.gradle.kts"))
    } else if m.settings_gradle {
        Some(owned("settings.gradle"))
    } else if m.settings_gradle_kts {
        Some(owned("settings.gradle.kts"))
    } else {
        None
    }
}

/// The project of the manifests that are packages or lists of requirements.
fn detect_package(m: &Manifests, dir_name: &str, rel: &str) -> (r: Option<Data>)
    ensures
        match r {
            Some(p) => project_in(*m, dir_name@, rel@) == Some(p@),
            None => project_in(*m, dir_name@, rel@) == first_candidate(*m, 6, dir_name@, rel@),
        },
{
    proof {
        reveal_with_fuel(first_candidate, 7);
    }
    match read_toml(&m.cargo) {
        Some(doc) => {
            return Some(cargo_project(&doc, dir_name, rel));
        },
        None => {},
    }
    match read_json(&m.package_json) {
        Some(doc) => {
            return Some(npm_project(&doc, dir_name, rel));
        },
        None => {},
    }
    match read_toml(&m.pyproject) {
        Some(doc) => {
            return Some(pyproject_project(&doc, dir_name, rel));
        },
        None => {},
    }
    match &m.requirements {
        Some(text) => {
            return Some(requirements_project(text.as_str(), dir_name, rel));
        },
        None => {},
    }
    match &m.go_mod {
        Some(text) => {
            return Some(go_project(text.as_str(), dir_name, rel));
        },
        None => {},
    }
    match read_json(&m.composer) {
        Some(doc) => Some(composer_project(&doc, dir_name, rel)),
        None => None,
    }
}

/// The project of the other manifests.
fn detect_other(m: &Manifests, dir_name: &str, rel: &str) -> (r: Option<Data>)
    ensures
        data_view(r) == first_candidate(*m, 6, dir_name@, rel@),
{
    proof {
        reveal_with_fuel(first_candidate, 8);
    }
    match &m.pom {
        Some(text) => {
            return Some(maven_project(text.as_str(), dir_name, rel));
        },
        None => {},
    }
    match find_gradle(m) {
        Some(file) => {
            return Some(
                bare_project("java", "Java (Gradle)", "☕", dir_name, file.as_str(), rel),
            );
        },
        None => {},
    }
    match &m.gemfile {
        Some(text) => {
            return Some(gemfile_project(text.as_str(), dir_name, rel));
        },
        None => {},
    }
    if m.mix {
        return Some(bare_project("elixir", "Elixir", "💧", dir_name, "mix.exs", rel));
    }
    match &m.pubspec {
        Some(text) => {
            return Some(pubspec_project(text.as_str(), dir_name, rel));
        },
        None => {},
    }
    match find_dotnet(&m.files) {
        Some(file) => Some(
            bare_project("dotnet", ".NET", "🔷", file.as_str(), file.as_str(), rel),
        ),
        None => None,
    }
}

/// The project in a directory of that name, at that path below the workspace.
pub fn detect_project(m: &Manifests, dir_name: &str, rel: &str) -> (r: Option<Data>)
    ensures
        data_view(r) == project_in(*m, dir_name@, rel@),
{
    match detect_package(m, dir_name, rel) {
        Some(p) => Some(p),
        None => detect_other(m, dir_name, rel),
    }
}

/// The names of the fields of projects and dependencies differ.
proof fn lemma_project_names()
    ensures
        "type"@ != "type_label"@,
        "type"@ != "icon"@,
        "type"@ != "name"@,
        "type"@ != "version"@,
        "type"@ != "manifest"@,
        "type"@ != "dir"@,
        "type"@ != "dependencies"@,
        "type"@ != "kind"@,
        "type_label"@ != "icon"@,
        "type_label"@ != "name"@,
        "type_label"@ != "version"@,
        "type_label"@ != "manifest"@,
        "type_label"@ != "dir"@,
        "type_label"@ != "dependencies"@,
        "type_label"@ != "kind"@,
        "icon"@ != "name"@,
        "icon"@ != "version"@,
        "icon"@ != "manifest"@,
        "icon"@ != "dir"@,
        "icon"@ != "dependencies"@,
        "icon"@ != "kind"@,
        "name"@ != "version"@,
        "name"@ != "manifest"@,
        "name"@ != "dir"@,
        "name"@ != "dependencies"@,
        "name"@ != "kind"@,
        "version"@ != "manifest"@,
        "version"@ != "dir"@,
        "version"@ != "dependencies"@,
        "version"@ != "kind"@,
        "manifest"@ != "dir"@,
        "manifest"@ != "dependencies"@,
        "manifest"@ != "kind"@,
        "dir"@ != "dependencies"@,
        "dir"@ != "kind"@,
        "dependencies"@ != "kind"@,
{
    reveal_strlit("type");
    reveal_strlit("type_label");
    reveal_strlit("icon");
    reveal_strlit("name");
    reveal_strlit("version");
    reveal_strlit("manifest");
    reveal_strlit("dir");
    reveal_strlit("dependencies");
    reveal_strlit("kind");
    assert("type"@.len() == 4);
    assert("type_label"@.len() == 10);
    assert("icon"@.len() == 4);
    assert("name"@.len() == 4);
    assert("version"@.len() == 7);
    assert("manifest"@.len() == 8);
    assert("dir"@.len() == 3);
    assert("dependencies"@.len() == 12);
    assert("kind"@.len() == 4);
    assert("type"@[0] == 't' && "icon"@[0] == 'i' && "name"@[0] == 'n' && "kind"@[0] == 'k');
}

/// Whether a field holds a text that is not empty.
pub open spec fn is_filled(v: Json) -> bool {
    v matches Json::Str(s) && s.len() > 0
}

/// Whether a project lists a dependency of that name, version and kind.
pub open spec fn lists_dep(
    project: Json,
    name: Seq<char>,
    version: Seq<char>,
    kind: Seq<char>,
) -> bool {
    exists|i: int|
        0 <= i < project.at("dependencies"@).elements().len() && is_dep(
            #[trigger] project.at("dependencies"@).elements()[i],
            name,
            version,
            kind,
        )
}

/// Whether a document is a dependency of that name, version and kind.
pub open spec fn is_dep(d: Json, name: Seq<char>, version: Seq<char>, kind: Seq<char>) -> bool {
    &&& d.at("name"@) == Json::Str(name)
    &&& d.at("version"@) == Json::Str(version)
    &&& d.at("kind"@) == Json::Str(kind)
}

/// A project says what it was found to be, field by field. Its dependencies are all that
/// were found, each as often as it was found, in the order of their names.
pub proof fn projects_say_what_was_found(
    p_type: Seq<char>,
    label: Seq<char>,
    icon: Seq<char>,
    name: Seq<char>,
    version: Seq<char>,
    manifest: Seq<char>,
    dir: Seq<char>,
    deps: Seq<DepView>,
)
    ensures
        ({
            let p = project_tree(p_type, label, icon, name, version, manifest, dir, deps);
            let listed = p.at("dependencies"@).elements();
            &&& p.at("type"@) == Json::Str(p_type)
            &&& p.at("type_label"@) == Json::Str(label)
            &&& p.at("icon"@) == Json::Str(icon)
            &&& p.at("name"@) == Json::Str(name)
            &&& p.at("version"@) == Json::Str(version)
            &&& p.at("manifest"@) == Json::Str(manifest)
            &&& p.at("dir"@) == Json::Str(dir)
            &&& p.at("dependencies"@) is List && listed.len() == deps.len()
            &&& forall|i: int|
                0 <= i < deps.len() ==> lists_dep(
                    p,
                    (#[trigger] deps[i]).name,
                    deps[i].version,
                    deps[i].kind,
                )
            &&& forall|i: int| 0 <= i < listed.len() ==> is_listed(deps, #[trigger] listed[i])
            &&& forall|i: int, j: int|
                0 <= i < j < listed.len() ==> !before(
                    (#[trigger] listed[j]).at("name"@).text_or_empty(),
                    (#[trigger] listed[i]).at("name"@).text_or_empty(),
                )
        }),
{
    broadcast use lemma_lookup_push;

    lemma_project_names();
    let p = project_tree(p_type, label, icon, name, version, manifest, dir, deps);
    let listed = p.at("dependencies"@).elements();
    let keys = by_name(deps);
    let all = sorted(keys);
    sorting_is_stable(keys);
    sorting_keeps_every_item(keys);
    assert(listed == sorted_dep_trees(deps));
    assert forall|i: int| 0 <= i < all.len() implies (#[trigger] all[i]).0 == all[i].1.name
        && deps.contains(all[i].1) by {
        assert(all.contains(all[i]));
        assert(keys.contains(all[i]));
        let k = choose|k: int| 0 <= k < keys.len() && keys[k] == all[i];
        assert(deps[k] == all[i].1);
    }
    assert forall|i: int| 0 <= i < deps.len() implies lists_dep(
        p,
        (#[trigger] deps[i]).name,
        deps[i].version,
        deps[i].kind,
    ) by {
        assert(keys[i] == (deps[i].name, deps[i]));
        assert(keys.contains(keys[i]));
        assert(all.contains(keys[i]));
        let k = choose|k: int| 0 <= k < all.len() && all[k] == keys[i];
        assert(listed[k] == dep_tree(deps[i]));
        assert(is_dep(listed[k], deps[i].name, deps[i].version, deps[i].kind));
    }
    assert forall|i: int| 0 <= i < listed.len() implies is_listed(deps, #[trigger] listed[i]) by {
        assert(listed[i] == dep_tree(all[i].1));
        assert(deps.contains(all[i].1));
        let k = choose|k: int| 0 <= k < deps.len() && deps[k] == all[i].1;
        assert(is_dep(listed[i], deps[k].name, deps[k].version, deps[k].kind));
    }
    assert forall|i: int, j: int| 0 <= i < j < listed.len() implies !before(
        (#[trigger] listed[j]).at("name"@).text_or_empty(),
        (#[trigger] listed[i]).at("name"@).text_or_empty(),
    ) by {
        assert(listed[i] == dep_tree(all[i].1));
        assert(listed[j] == dep_tree(all[j].1));
        assert(!before(all[j].0, all[i].0));
    }
}

/// Whether a document is one of the dependencies.
pub open spec fn is_listed(deps: Seq<DepView>, d: Json) -> bool {
    exists|k: int|
        0 <= k < deps.len() && is_dep(
            d,
            (#[trigger] deps[k]).name,
            deps[k].version,
            deps[k].kind,
        )
}

/// The version that a manifest asks of a dependency: the text that stands there, or the
/// version in the table that stands there, else none.
pub proof fn versions_are_texts_or_in_tables(v: Json)
    ensures
        v matches Json::Str(s) ==> version_of(v) == s,
        v is Table ==> version_of(v) == (match v.at("version"@) {
            Json::Str(s) => s,
            _ => Seq::empty(),
        }),
        !(v is Str) && !(v is Table) ==> version_of(v).len() == 0,
{
}

/// A Rust package has the name and version that stand in its `package` table, or the
/// name of the directory where it has none there and the empty version where it has none
/// there. It is listed with every entry of its `dependencies`, `dev-dependencies` and
/// `build-dependencies`, each under its kind and with the version that is asked of it,
/// and with nothing else.
pub proof fn rust_packages_are_described(doc: Json, dir_name: Seq<char>, rel: Seq<char>, i: int)
    ensures
        ({
            let p = cargo_tree(doc, dir_name, rel);
            let name = doc.at("package"@).at("name"@);
            let version = doc.at("package"@).at("version"@);
            let main = doc.at("dependencies"@).fields();
            let dev = doc.at("dev-dependencies"@).fields();
            let build = doc.at("build-dependencies"@).fields();
            &&& p.at("type"@) == Json::Str("rust"@)
            &&& p.at("manifest"@) == Json::Str("Cargo.toml"@)
            &&& p.at("dir"@) == Json::Str(rel)
            &&& version matches Json::Str(v) ==> p.at("version"@) == Json::Str(v)
            &&& !(version is Str) ==> p.at("version"@) == Json::Str(Seq::empty())
            &&& is_filled(name) ==> p.at("name"@) == name
            &&& !is_filled(name) ==> p.at("name"@) == Json::Str(dir_name)
            &&& p.at("dependencies"@).elements().len() == main.len() + dev.len() + build.len()
            &&& 0 <= i < main.len() ==> lists_dep(p, main[i].0, version_of(main[i].1), "deps"@)
            &&& 0 <= i < dev.len() ==> lists_dep(p, dev[i].0, version_of(dev[i].1), "dev"@)
            &&& 0 <= i < build.len() ==> lists_dep(p, build[i].0, version_of(build[i].1), "build"@)
        }),
{
    let main = table_deps(doc.at("dependencies"@), "deps"@, true);
    let dev = table_deps(doc.at("dev-dependencies"@), "dev"@, true);
    let build = table_deps(doc.at("build-dependencies"@), "build"@, true);
    let deps = main + dev + build;
    let name = name_or(doc.at("package"@).at("name"@).text_or_empty(), dir_name);
    let version = doc.at("package"@).at("version"@).text_or_empty();
    projects_say_what_was_found("rust"@, "Rust"@, "🦀"@, name, version, "Cargo.toml"@, rel, deps);
    if 0 <= i < main.len() {
        assert(deps[i] == main[i]);
    }
    if 0 <= i < dev.len() {
        assert(deps[main.len() + i] == dev[i]);
    }
    if 0 <= i < build.len() {
        assert(deps[main.len() + dev.len() + i] == build[i]);
    }
}

/// A package whose manifest is a JSON document has the name and version that stand in
/// it, or the name of the directory and the empty version, and is listed with every
/// entry of its two tables of dependencies, each under its kind and with the text that
/// stands there as its version, and with nothing else.
proof fn lemma_json_package(
    p_type: Seq<char>,
    label: Seq<char>,
    icon: Seq<char>,
    manifest: Seq<char>,
    first: (Seq<char>, Seq<char>),
    second: (Seq<char>, Seq<char>),
    doc: Json,
    dir_name: Seq<char>,
    rel: Seq<char>,
    i: int,
)
    ensures
        ({
            let p = json_package_tree(
                p_type,
                label,
                icon,
                manifest,
                first,
                second,
                doc,
                dir_name,
                rel,
            );
            let a = doc.at(first.0).fields();
            let b = doc.at(second.0).fields();
            &&& p.at("type"@) == Json::Str(p_type)
            &&& p.at("manifest"@) == Json::Str(manifest)
            &&& p.at("dir"@) == Json::Str(rel)
            &&& doc.at("version"@) matches Json::Str(v) ==> p.at("version"@) == Json::Str(v)
            &&& !(doc.at("version"@) is Str) ==> p.at("version"@) == Json::Str(Seq::empty())
            &&& is_filled(doc.at("name"@)) ==> p.at("name"@) == doc.at(
                "name"@,
            )
            &&& !is_filled(doc.at("name"@)) ==> p.at("name"@)
                == Json::Str(dir_name)
            &&& p.at("dependencies"@).elements().len() == a.len() + b.len()
            &&& 0 <= i < a.len() ==> lists_dep(p, a[i].0, a[i].1.text_or_empty(), first.1)
            &&& 0 <= i < b.len() ==> lists_dep(p, b[i].0, b[i].1.text_or_empty(), second.1)
        }),
{
    let a = table_deps(doc.at(first.0), first.1, false);
    let b = table_deps(doc.at(second.0), second.1, false);
    projects_say_what_was_found(
        p_type,
        label,
        icon,
        name_or(doc.at("name"@).text_or_empty(), dir_name),
        doc.at("version"@).text_or_empty(),
        manifest,
        rel,
        a + b,
    );
    if 0 <= i < a.len() {
        assert((a + b)[i] == a[i]);
    }
    if 0 <= i < b.len() {
        assert((a + b)[a.len() + i] == b[i]);
    }
}

/// A Node.js package has the name and version of its `package.json`, or the name of the
/// directory and the empty version, and is listed with every entry of its `dependencies`
/// and `devDependencies`, and with nothing else.
pub proof fn node_packages_are_described(doc: Json, dir_name: Seq<char>, rel: Seq<char>, i: int)
    ensures
        ({
            let p = npm_tree(doc, dir_name, rel);
            let main = doc.at("dependencies"@).fields();
            let dev = doc.at("devDependencies"@).fields();
            &&& p.at("type"@) == Json::Str("node"@)
            &&& p.at("manifest"@) == Json::Str("package.json"@)
            &&& p.at("dir"@) == Json::Str(rel)
            &&& doc.at("version"@) matches Json::Str(v) ==> p.at("version"@) == Json::Str(v)
            &&& !(doc.at("version"@) is Str) ==> p.at("version"@) == Json::Str(Seq::empty())
            &&& is_filled(doc.at("name"@)) ==> p.at("name"@) == doc.at(
                "name"@,
            )
            &&& !is_filled(doc.at("name"@)) ==> p.at("name"@)
                == Json::Str(dir_name)
            &&& p.at("dependencies"@).elements().len() == main.len() + dev.len()
            &&& 0 <= i < main.len() ==> lists_dep(p, main[i].0, main[i].1.text_or_empty(), "deps"@)
            &&& 0 <= i < dev.len() ==> lists_dep(p, dev[i].0, dev[i].1.text_or_empty(), "dev"@)
        }),
{
    lemma_json_package(
        "node"@,
        "Node.js"@,
        "⬢"@,
        "package.json"@,
        ("dependencies"@, "deps"@),
        ("devDependencies"@, "dev"@),
        doc,
        dir_name,
        rel,
        i,
    );
}

/// A PHP package has the name and version of its `composer.json`, or the name of the
/// directory and the empty version, and is listed with every entry of its `require` and
/// `require-dev`, and with nothing else.
pub proof fn php_packages_are_described(doc: Json, dir_name: Seq<char>, rel: Seq<char>, i: int)
    ensures
        ({
            let p = composer_tree(doc, dir_name, rel);
            let main = doc.at("require"@).fields();
            let dev = doc.at("require-dev"@).fields();
            &&& p.at("type"@) == Json::Str("php"@)
            &&& p.at("manifest"@) == Json::Str("composer.json"@)
            &&& p.at("dir"@) == Json::Str(rel)
            &&& doc.at("version"@) matches Json::Str(v) ==> p.at("version"@) == Json::Str(v)
            &&& !(doc.at("version"@) is Str) ==> p.at("version"@) == Json::Str(Seq::empty())
            &&& is_filled(doc.at("name"@)) ==> p.at("name"@) == doc.at(
                "name"@,
            )
            &&& !is_filled(doc.at("name"@)) ==> p.at("name"@)
                == Json::Str(dir_name)
            &&& p.at("dependencies"@).elements().len() == main.len() + dev.len()
            &&& 0 <= i < main.len() ==> lists_dep(
                p,
                main[i].0,
                main[i].1.text_or_empty(),
                "require"@,
            )
            &&& 0 <= i < dev.len() ==> lists_dep(p, dev[i].0, dev[i].1.text_or_empty(), "dev"@)
        }),
{
    lemma_json_package(
        "php"@,
        "PHP"@,
        "🐘"@,
        "composer.json"@,
        ("require"@, "require"@),
        ("require-dev"@, "dev"@),
        doc,
        dir_name,
        rel,
        i,
    );
}

/// A Python project has the name and version that stand in its `project` table, or the
/// name of the directory and the empty version. It is listed with each text in its
/// `dependencies`, each text in its `optional-dependencies` under the name of its group,
/// and every entry that Poetry keeps.
pub proof fn python_projects_are_described(
    doc: Json,
    dir_name: Seq<char>,
    rel: Seq<char>,
    g: int,
    i: int,
)
    ensures
        ({
            let p = pyproject_tree(doc, dir_name, rel);
            let project = doc.at("project"@);
            let name = project.at("name"@);
            let version = project.at("version"@);
            let main = project.at("dependencies"@).elements();
            let groups = project.at("optional-dependencies"@).fields();
            let poetry = doc.at("tool"@).at("poetry"@).at("dependencies"@).fields();
            &&& p.at("type"@) == Json::Str("python"@)
            &&& p.at("manifest"@) == Json::Str("pyproject.toml"@)
            &&& p.at("dir"@) == Json::Str(rel)
            &&& version matches Json::Str(v) ==> p.at("version"@) == Json::Str(v)
            &&& !(version is Str) ==> p.at("version"@) == Json::Str(Seq::empty())
            &&& is_filled(name) ==> p.at("name"@) == name
            &&& !is_filled(name) ==> p.at("name"@) == Json::Str(dir_name)
            &&& 0 <= i < main.len() ==> (main[i] matches Json::Str(s) ==> lists_dep(
                p,
                requirement(s, "deps"@).name,
                requirement(s, "deps"@).version,
                "deps"@,
            ))
            &&& 0 <= g < groups.len() && 0 <= i < groups[g].1.elements().len() ==> (
            groups[g].1.elements()[i] matches Json::Str(s) ==> lists_dep(
                p,
                requirement(s, groups[g].0).name,
                requirement(s, groups[g].0).version,
                groups[g].0,
            ))
            &&& 0 <= i < poetry.len() ==> lists_dep(
                p,
                poetry[i].0,
                version_of(poetry[i].1),
                "poetry"@,
            )
        }),
{
    let project = doc.at("project"@);
    let main = list_deps(project.at("dependencies"@).elements(), "deps"@);
    let groups = project.at("optional-dependencies"@).fields();
    let grouped = group_deps(groups);
    let poetry = table_deps(doc.at("tool"@).at("poetry"@).at("dependencies"@), "poetry"@, true);
    let deps = main + grouped + poetry;
    projects_say_what_was_found(
        "python"@,
        "Python"@,
        "🐍"@,
        name_or(project.at("name"@).text_or_empty(), dir_name),
        project.at("version"@).text_or_empty(),
        "pyproject.toml"@,
        rel,
        deps,
    );
    let items = project.at("dependencies"@).elements();
    if 0 <= i < items.len() {
        if let Json::Str(s) = items[i] {
            lemma_list_dep(items, "deps"@, i);
            let k = choose|k: int| 0 <= k < main.len() && main[k] == requirement(s, "deps"@);
            assert(deps[k] == main[k]);
        }
    }
    if 0 <= g < groups.len() && 0 <= i < groups[g].1.elements().len() {
        if let Json::Str(s) = groups[g].1.elements()[i] {
            lemma_group_dep(groups, g, i);
            let want = requirement(s, groups[g].0);
            let k = choose|k: int| 0 <= k < grouped.len() && grouped[k] == want;
            assert(deps[main.len() + k] == grouped[k]);
        }
    }
    if 0 <= i < poetry.len() {
        assert(deps[main.len() + grouped.len() + i] == poetry[i]);
    }
}

/// Each text in a list is one of its requirements.
proof fn lemma_list_dep(items: Seq<Json>, kind: Seq<char>, i: int)
    requires
        0 <= i < items.len(),
        items[i] is Str,
    ensures
        list_deps(items, kind).contains(requirement(items[i]->Str_0, kind)),
    decreases items.len(),
{
    let front = items.drop_last();
    let before = list_deps(front, kind);
    let after = list_deps(items, kind);
    let want = requirement(items[i]->Str_0, kind);
    if i < front.len() {
        assert(front[i] == items[i]);
        lemma_list_dep(front, kind, i);
        let k = choose|k: int| 0 <= k < before.len() && before[k] == want;
        assert(after[k] == want);
    } else {
        assert(after.last() == want);
    }
}

/// Each text in a group is one of the requirements of the groups.
proof fn lemma_group_dep(groups: Seq<(Seq<char>, Json)>, g: int, i: int)
    requires
        0 <= g < groups.len(),
        0 <= i < groups[g].1.elements().len(),
        groups[g].1.elements()[i] is Str,
    ensures
        group_deps(groups).contains(
            requirement(groups[g].1.elements()[i]->Str_0, groups[g].0),
        ),
    decreases groups.len(),
{
    let front = groups.drop_last();
    let before = group_deps(front);
    let after = group_deps(groups);
    let want = requirement(groups[g].1.elements()[i]->Str_0, groups[g].0);
    let own = list_deps(groups.last().1.elements(), groups.last().0);
    if g < front.len() {
        assert(front[g] == groups[g]);
        lemma_group_dep(front, g, i);
        let k = choose|k: int| 0 <= k < before.len() && before[k] == want;
        assert(after[k] == want);
    } else {
        lemma_list_dep(groups[g].1.elements(), groups[g].0, i);
        let k = choose|k: int| 0 <= k < own.len() && own[k] == want;
        assert(after[before.len() + k] == want);
    }
}

/// A requirement is split behind its name: the name goes up to the first sign of a
/// comparison, bracket, semicolon or blank, and what follows is the version, without
/// blanks, commas and semicolons around it. White space around the whole does not
/// matter.
#[verifier::rlimit(40)]
pub proof fn requirements_are_split_behind_the_name(
    front: Seq<char>,
    name: Seq<char>,
    version: Seq<char>,
    back: Seq<char>,
    kind: Seq<char>,
)
    requires
        forall|i: int| 0 <= i < front.len() ==> is_space(#[trigger] front[i]),
        forall|i: int| 0 <= i < back.len() ==> is_space(#[trigger] back[i]),
        name.len() > 0,
        forall|i: int|
            0 <= i < name.len() ==> !is_space(#[trigger] name[i]) && !"<>=~![; \t"@.contains(name[i]),
        version.len() > 0 ==> "<>=~!["@.contains(version[0]) && !is_space(version.last())
            && version.last() != ',' && version.last() != ';',
    ensures
        requirement(front + name + version + back, kind) == (DepView { name, version, kind }),
{
    reveal_strlit("<>=~![; \t");
    reveal_strlit("<>=~![");
    reveal_strlit(" ,;\t");
    let stops = "<>=~![; \t"@;
    let signs = "<>=~!["@;
    let around = " ,;\t"@;
    let s = name + version;
    assert(front + s + back =~= front + name + version + back);
    assert(s[0] == name[0]);
    if version.len() > 0 {
        assert(s.last() == version.last());
    } else {
        assert(s =~= name);
    }
    white_space_around_a_text_is_trimmed(front, s, back);
    texts_are_cut_at_a_set(s, stops);
    let cut = until_any(s, stops);
    if version.len() > 0 {
        assert(s[name.len() as int] == version[0]);
        let k = choose|k: int| 0 <= k < signs.len() && signs[k] == version[0];
        assert(stops[k] == version[0]);
        assert(stops.contains(version[0]));
    }
    if cut.len() < name.len() {
        assert(s[cut.len() as int] == name[cut.len() as int]);
    }
    if cut.len() > name.len() {
        assert(cut[name.len() as int] == s[name.len() as int]);
    }
    assert(cut =~= name);
    white_space_around_a_text_is_trimmed(seq![], name, seq![]);
    assert(Seq::<char>::empty() + name + Seq::<char>::empty() =~= name);
    assert(s.subrange(0, name.len() as int) =~= name);
    assert(begins(s, name));
    assert(s.skip(name.len() as int) =~= version);
    let a = trimming_a_set_takes_only_the_set(version, around);
    let t = trim_end_any(trim_start_any(version, around), around);
    assert(around.len() == 4 && around[0] == ' ' && around[1] == ',' && around[2] == ';'
        && around[3] == '\t');
    printing_characters_are_no_space(' ');
    printing_characters_are_no_space('\t');
    if version.len() > 0 {
        assert(!around.contains(version[0])) by {
            let k = choose|k: int| 0 <= k < signs.len() && signs[k] == version[0];
            assert(signs.len() == 6 && signs[0] == '<' && signs[1] == '>' && signs[2] == '='
                && signs[3] == '~' && signs[4] == '!' && signs[5] == '[');
        }
        assert(!around.contains(version.last())) by {
            assert(version.last() != ' ' && version.last() != '\t');
        }
        if a > 0 {
            assert(around.contains(version[0]));
        }
        if a + t.len() < version.len() {
            assert(around.contains(version[version.len() - 1]));
        }
        assert(t =~= version);
    } else {
        assert(t =~= version);
    }
}

/// One more line of a requirements file adds its requirement, unless it is blank, a
/// comment, an option or a path. The project has the name of its directory and no
/// version.
pub proof fn requirement_lines_are_taken(
    all: Seq<Seq<char>>,
    line: Seq<char>,
    text: Seq<char>,
    dir_name: Seq<char>,
    rel: Seq<char>,
    i: int,
)
    ensures
        requirement_lines(seq![]).len() == 0,
        requirement_lines(all.push(line)) == (if trimmed(line).len() == 0 || trimmed(line)[0] == '#'
            || trimmed(line)[0] == '-' || trimmed(line)[0] == '.' {
            requirement_lines(all)
        } else {
            requirement_lines(all).push(requirement(trimmed(line), "deps"@))
        }),
        ({
            let p = requirements_tree(text, dir_name, rel);
            let deps = requirement_lines(line_list(text));
            &&& p.at("type"@) == Json::Str("python"@)
            &&& p.at("name"@) == Json::Str(dir_name)
            &&& p.at("version"@) == Json::Str(Seq::empty())
            &&& p.at("manifest"@) == Json::Str("requirements.txt"@)
            &&& p.at("dir"@) == Json::Str(rel)
            &&& p.at("dependencies"@).elements().len() == deps.len()
            &&& 0 <= i < deps.len() ==> lists_dep(p, deps[i].name, deps[i].version, deps[i].kind)
        }),
{
    assert(all.push(line).drop_last() =~= all);
    projects_say_what_was_found(
        "python"@,
        "Python"@,
        "🐍"@,
        dir_name,
        Seq::empty(),
        "requirements.txt"@,
        rel,
        requirement_lines(line_list(text)),
    );
    if 0 <= i < requirement_lines(line_list(text)).len() {
        let d = requirement_lines(line_list(text))[i];
        assert(lists_dep(requirements_tree(text, dir_name, rel), d.name, d.version, d.kind));
    }
}

/// A requirement of a Go module names the module and its version, with the word
/// `require` before them or not.
#[verifier::rlimit(40)]
pub proof fn go_requirements_are_read(name: Seq<char>, version: Seq<char>)
    requires
        name.len() > 0,
        version.len() > 0,
        name != "require"@,
        forall|i: int| 0 <= i < name.len() ==> !is_space(#[trigger] name[i]),
        forall|i: int| 0 <= i < version.len() ==> !is_space(#[trigger] version[i]),
        version[0] != '"',
        version.last() != '"',
    ensures
        go_requirement("require "@ + name + " "@ + version) == Some(
            DepView { name, version, kind: "require"@ },
        ),
        go_requirement(name + " "@ + version) == Some(
            DepView { name, version, kind: "require"@ },
        ),
{
    reveal_strlit("require ");
    reveal_strlit("require");
    reveal_strlit(" ");
    reveal_strlit("\"");
    printing_characters_are_no_space(' ');
    let line = name + " "@ + version;
    let long = "require "@ + name + " "@ + version;
    assert(" "@ =~= seq![' ']);
    assert(line =~= name + seq![' '] + version);
    assert(long.subrange(0, 8) =~= "require "@);
    assert(begins(long, "require "@));
    assert(long.skip(8) =~= line);
    white_space_around_a_text_is_trimmed(seq![], line, seq![]);
    assert(Seq::<char>::empty() + line + Seq::<char>::empty() =~= line);
    assert(line[0] == name[0]);
    assert(line.last() == version.last());
    words_are_kept_apart_by_white_space(name, ' ', version);
    words_are_kept_apart_by_white_space(version, ' ', seq![]);
    let parts = word_list(line);
    assert(parts =~= seq![name, version]);
    if begins(line, "require "@) {
        let front = line.subrange(0, 8);
        assert(front[7] == ' ');
        assert(line[7] == ' ');
        if name.len() > 7 {
            assert(line[7] == name[7]);
        } else if name.len() < 7 {
            assert(line[name.len() as int] == ' ');
            assert(front[name.len() as int] == ' ');
            assert("require "@[name.len() as int] != ' ');
        } else {
            assert(name =~= "require"@) by {
                assert forall|i: int| 0 <= i < 7 implies name[i] == "require"@[i] by {
                    assert(line[i] == name[i]);
                    assert(front[i] == line[i]);
                }
            }
        }
    }
    let quote = "\""@;
    assert(quote.len() == 1 && quote[0] == '"');
    let a = trimming_a_set_takes_only_the_set(version, quote);
    let t = trim_end_any(trim_start_any(version, quote), quote);
    if a > 0 {
        assert(quote.contains(version[0]));
    }
    if a + t.len() < version.len() {
        assert(quote.contains(version[version.len() - 1]));
    }
    assert(t =~= version);
}

/// Each line of a Go module says one thing: its name, its version, that a block of
/// requirements begins or ends, or a requirement, which counts inside a block or behind
/// the word `require`. Blank lines, comments and other lines say nothing.
pub proof fn go_lines_say_one_thing(g: GoView, line: Seq<char>)
    ensures
        ({
            let l = trimmed(line);
            let after = go_line(g, line);
            &&& l.len() == 0 || begins(l, "//"@) ==> after == g
            &&& begins(l, "module "@) ==> after == (GoView { module: trimmed(l.skip(7)), ..g })
            &&& begins(l, "go "@) ==> after == (GoView { version: trimmed(l.skip(3)), ..g })
            &&& l == "require ("@ ==> after == (GoView { in_block: true, ..g })
            &&& l == ")"@ ==> after == (GoView { in_block: false, ..g })
            &&& begins(l, "require "@) && l != "require ("@ ==> after == (match go_requirement(l) {
                Some(dep) => GoView { deps: g.deps.push(dep), ..g },
                None => g,
            })
            &&& l.len() > 0 && begins(l, "//"@) == false && begins(l, "module "@) == false
                && begins(l, "go "@) == false && begins(l, "require "@) == false && l != ")"@
                ==> after == (if g.in_block {
                match go_requirement(l) {
                    Some(dep) => GoView { deps: g.deps.push(dep), ..g },
                    None => g,
                }
            } else {
                g
            })
        }),
        go_lines(seq![]) == (GoView {
            module: seq![],
            version: seq![],
            deps: seq![],
            in_block: false,
        }),
{
    reveal_strlit("//");
    reveal_strlit("module ");
    reveal_strlit("go ");
    reveal_strlit("require (");
    reveal_strlit(")");
    reveal_strlit("require ");
    let l = trimmed(line);
    if begins(l, "//"@) {
        assert(l.subrange(0, 2)[0] == '/');
        assert(l[0] == '/');
    }
    if begins(l, "module "@) {
        assert(l.subrange(0, 7)[0] == 'm');
        assert(l[0] == 'm');
    }
    if begins(l, "go "@) {
        assert(l.subrange(0, 3)[0] == 'g');
        assert(l[0] == 'g');
    }
    if begins(l, "require "@) {
        assert(l.subrange(0, 8)[0] == 'r');
        assert(l[0] == 'r');
    }
    assert("require ("@.subrange(0, 8) =~= "require "@);
    assert("require ("@[0] == 'r');
    assert(")"@[0] == ')');
}

/// A Go module has the last part of its path as its name, the version of Go that it is
/// written for, and its requirements; one without a name has that of its directory.
pub proof fn go_modules_are_described(
    text: Seq<char>,
    dir_name: Seq<char>,
    rel: Seq<char>,
    front: Seq<char>,
    name: Seq<char>,
    i: int,
)
    requires
        name.len() > 0,
        !name.contains('/'),
        go_lines(line_list(text)).module == front + seq!['/'] + name || go_lines(
            line_list(text),
        ).module == name,
    ensures
        ({
            let p = go_tree(text, dir_name, rel);
            let g = go_lines(line_list(text));
            &&& p.at("type"@) == Json::Str("go"@)
            &&& p.at("name"@) == Json::Str(name)
            &&& p.at("version"@) == Json::Str(g.version)
            &&& p.at("manifest"@) == Json::Str("go.mod"@)
            &&& p.at("dir"@) == Json::Str(rel)
            &&& p.at("dependencies"@).elements().len() == g.deps.len()
            &&& 0 <= i < g.deps.len() ==> lists_dep(
                p,
                g.deps[i].name,
                g.deps[i].version,
                g.deps[i].kind,
            )
        }),
{
    let g = go_lines(line_list(text));
    projects_say_what_was_found(
        "go"@,
        "Go"@,
        "🐹"@,
        name_or(pieces(g.module, '/').last(), dir_name),
        g.version,
        "go.mod"@,
        rel,
        g.deps,
    );
    if g.module == name {
        lemma_last_piece_alone(name, '/');
    } else {
        lemma_last_piece(front, name, '/');
    }
    if 0 <= i < g.deps.len() {
        let d = g.deps[i];
        assert(lists_dep(go_tree(text, dir_name, rel), d.name, d.version, d.kind));
    }
}

/// A text without the separator is its only piece.
proof fn lemma_last_piece_alone(name: Seq<char>, c: char)
    requires
        !name.contains(c),
    ensures
        pieces(name, c).len() > 0,
        pieces(name, c).last() == name,
{
    lemma_run_before(name, c);
    let k = run_before(name, c);
    if k < name.len() {
        assert(name[k] == c);
    }
}

/// The last piece of a text is what follows the last separator.
proof fn lemma_last_piece(front: Seq<char>, name: Seq<char>, c: char)
    requires
        !name.contains(c),
    ensures
        pieces(front + seq![c] + name, c).len() > 0,
        pieces(front + seq![c] + name, c).last() == name,
    decreases front.len(),
{
    let s = front + seq![c] + name;
    lemma_run_before(s, c);
    let k = run_before(s, c);
    assert(s[front.len() as int] == c);
    let rest = s.skip(k + 1);
    if k < front.len() {
        let tail = front.skip(k + 1);
        assert(rest =~= tail + seq![c] + name);
        lemma_last_piece(tail, name, c);
    } else {
        assert(rest =~= name);
        lemma_last_piece_alone(name, c);
    }
    assert(pieces(s, c) == seq![s.take(k)] + pieces(rest, c));
}

/// A Maven project has the artifact and the version that stand first in its file, or the
/// name of the directory and no version, and is listed with each dependency that was
/// found: its artifact, and its version where it has one.
pub proof fn maven_projects_are_described(
    dependencies: Seq<Seq<Option<Seq<char>>>>,
    artifacts: Seq<Seq<Option<Seq<char>>>>,
    versions: Seq<Seq<Option<Seq<char>>>>,
    dir_name: Seq<char>,
    rel: Seq<char>,
    i: int,
)
    ensures
        ({
            let p = maven_found_tree(dependencies, artifacts, versions, dir_name, rel);
            &&& p.at("type"@) == Json::Str("java"@)
            &&& p.at("manifest"@) == Json::Str("pom.xml"@)
            &&& p.at("dir"@) == Json::Str(rel)
            &&& artifacts.len() > 0 ==> p.at("name"@) == Json::Str(group(artifacts[0], 1))
            &&& artifacts.len() == 0 ==> p.at("name"@) == Json::Str(dir_name)
            &&& versions.len() > 0 ==> p.at("version"@) == Json::Str(group(versions[0], 1))
            &&& versions.len() == 0 ==> p.at("version"@) == Json::Str(Seq::empty())
            &&& p.at("dependencies"@).elements().len() == dependencies.len()
            &&& 0 <= i < dependencies.len() ==> lists_dep(
                p,
                group(dependencies[i], 2),
                group(dependencies[i], 3),
                "deps"@,
            )
        }),
{
    let deps = match_deps(dependencies, 2, 3, "deps"@);
    projects_say_what_was_found(
        "java"@,
        "Java (Maven)"@,
        "☕"@,
        match first_group(artifacts, 1) {
            Some(name) => name,
            None => dir_name,
        },
        match first_group(versions, 1) {
            Some(version) => version,
            None => seq![],
        },
        "pom.xml"@,
        rel,
        deps,
    );
    if 0 <= i < dependencies.len() {
        let d = deps[i];
        assert(d.name == group(dependencies[i], 2));
    }
}

/// A Ruby project is listed with each gem that was found; it has the name of its
/// directory, and no version. A Dart project has the name that was found, or that of its
/// directory, and neither version nor dependencies.
pub proof fn ruby_and_dart_projects_are_described(
    found: Seq<Seq<Option<Seq<char>>>>,
    dir_name: Seq<char>,
    rel: Seq<char>,
    i: int,
)
    ensures
        ({
            let p = gems_tree(found, dir_name, rel);
            &&& p.at("type"@) == Json::Str("ruby"@)
            &&& p.at("name"@) == Json::Str(dir_name)
            &&& p.at("version"@) == Json::Str(Seq::empty())
            &&& p.at("manifest"@) == Json::Str("Gemfile"@)
            &&& p.at("dir"@) == Json::Str(rel)
            &&& p.at("dependencies"@).elements().len() == found.len()
            &&& 0 <= i < found.len() ==> lists_dep(p, group(found[i], 1), seq![], "gem"@)
        }),
        ({
            let p = dart_tree(found, dir_name, rel);
            &&& p.at("type"@) == Json::Str("dart"@)
            &&& found.len() > 0 ==> p.at("name"@) == Json::Str(group(found[0], 1))
            &&& found.len() == 0 ==> p.at("name"@) == Json::Str(dir_name)
            &&& p.at("version"@) == Json::Str(Seq::empty())
            &&& p.at("manifest"@) == Json::Str("pubspec.yaml"@)
            &&& p.at("dir"@) == Json::Str(rel)
            &&& p.at("dependencies"@).elements().len() == 0
        }),
{
    let deps = Seq::new(
        found.len(),
        |i: int| DepView { name: group(found[i], 1), version: seq![], kind: "gem"@ },
    );
    projects_say_what_was_found(
        "ruby"@,
        "Ruby"@,
        "💎"@,
        dir_name,
        Seq::empty(),
        "Gemfile"@,
        rel,
        deps,
    );
    if 0 <= i < found.len() {
        let d = deps[i];
        assert(d.name == group(found[i], 1));
    }
    let name = match first_group(found, 1) {
        Some(name) => name,
        None => dir_name,
    };
    projects_say_what_was_found(
        "dart"@,
        "Dart/Flutter"@,
        "🎯"@,
        name,
        Seq::empty(),
        "pubspec.yaml"@,
        rel,
        Seq::empty(),
    );
}

/// The first file of a .NET project that stands in a directory is found: one that ends
/// with `.csproj` or `.fsproj` and has a name before that.
pub proof fn dotnet_files_are_found(files: Seq<Seq<char>>, k: int)
    requires
        0 <= k < files.len(),
        files[k].len() > 7,
        ends(files[k], ".csproj"@) || ends(files[k], ".fsproj"@),
    ensures
        first_dotnet(files) matches Some(file) && file.len() > 7 && (ends(file, ".csproj"@) || ends(
            file,
            ".fsproj"@,
        )) && files.contains(file),
    decreases files.len(),
{
    if is_dotnet_file(files[0]) {
    } else {
        let rest = files.drop_first();
        assert(rest[k - 1] == files[k]);
        dotnet_files_are_found(rest, k - 1);
        let file = first_dotnet(rest)->0;
        let j = choose|j: int| 0 <= j < rest.len() && rest[j] == file;
        assert(files[j + 1] == file);
    }
}

/// Manifests are tried in the order Cargo, npm, pyproject, requirements, Go, Composer,
/// Maven, Gradle, Gemfile, mix, pubspec and .NET: the project is of the first kind whose
/// manifest is there and can be read, whatever stands there of the later kinds.
pub proof fn manifests_are_tried_in_order(m: Manifests, dir_name: Seq<char>, rel: Seq<char>)
    ensures
        ({
            let found = project_in(m, dir_name, rel);
            let no_rust = toml_of(m.cargo) is None;
            let no_node = no_rust && json_of(m.package_json) is None;
            let no_pyproject = no_node && toml_of(m.pyproject) is None;
            let no_python = no_pyproject && m.requirements is None;
            let no_go = no_python && m.go_mod is None;
            let no_php = no_go && json_of(m.composer) is None;
            let no_maven = no_php && m.pom is None;
            let gradle = m.build_gradle || m.build_gradle_kts || m.settings_gradle
                || m.settings_gradle_kts;
            let no_java = no_maven && !gradle;
            let no_ruby = no_java && m.gemfile is None;
            let no_elixir = no_ruby && !m.mix;
            let no_dart = no_elixir && m.pubspec is None;
            &&& !no_rust ==> found == Some(cargo_tree(toml_of(m.cargo)->0, dir_name, rel))
            &&& no_rust && !no_node ==> found == Some(
                npm_tree(json_of(m.package_json)->0, dir_name, rel),
            )
            &&& no_node && !no_pyproject ==> found == Some(
                pyproject_tree(toml_of(m.pyproject)->0, dir_name, rel),
            )
            &&& no_pyproject && !no_python ==> found == Some(
                requirements_tree(m.requirements->0@, dir_name, rel),
            )
            &&& no_python && !no_go ==> found == Some(go_tree(m.go_mod->0@, dir_name, rel))
            &&& no_go && !no_php ==> found == Some(
                composer_tree(json_of(m.composer)->0, dir_name, rel),
            )
            &&& no_php && !no_maven ==> found == Some(maven_tree(m.pom->0@, dir_name, rel))
            &&& no_maven && gradle ==> (found matches Some(p) && p.at("type"@) == Json::Str(
                "java"@,
            ) && p.at("name"@) == Json::Str(dir_name) && p.at("dir"@) == Json::Str(rel) && p.at(
                "version"@,
            ) == Json::Str(Seq::empty()) && p.at("dependencies"@).elements().len() == 0 && p.at(
                "manifest"@,
            ) == Json::Str(
                if m.build_gradle {
                    "build.gradle"@
                } else if m.build_gradle_kts {
                    "build.gradle.kts"@
                } else if m.settings_gradle {
                    "settings.gradle"@
                } else {
                    "settings.gradle.kts"@
                },
            ))
            &&& no_java && !no_ruby ==> found == Some(gemfile_tree(m.gemfile->0@, dir_name, rel))
            &&& no_ruby && m.mix ==> (found matches Some(p) && p.at("type"@) == Json::Str(
                "elixir"@,
            ) && p.at("name"@) == Json::Str(dir_name) && p.at("manifest"@) == Json::Str("mix.exs"@)
                && p.at("dir"@) == Json::Str(rel))
            &&& no_elixir && !no_dart ==> found == Some(
                pubspec_tree(m.pubspec->0@, dir_name, rel),
            )
            &&& no_dart ==> (match first_dotnet(texts(m.files@)) {
                Some(file) => found matches Some(p) && p.at("type"@) == Json::Str("dotnet"@)
                    && p.at("name"@) == Json::Str(file) && p.at("manifest"@) == Json::Str(file)
                    && p.at("dir"@) == Json::Str(rel),
                None => found is None,
            })
        }),
{
    reveal_with_fuel(first_candidate, 13);
    let none: Seq<DepView> = Seq::empty();
    if let Some(file) = gradle_file(m) {
        projects_say_what_was_found(
            "java"@,
            "Java (Gradle)"@,
            "☕"@,
            dir_name,
            Seq::empty(),
            file,
            rel,
            none,
        );
    }
    projects_say_what_was_found(
        "elixir"@,
        "Elixir"@,
        "💧"@,
        dir_name,
        Seq::empty(),
        "mix.exs"@,
        rel,
        none,
    );
    if let Some(file) = first_dotnet(texts(m.files@)) {
        projects_say_what_was_found(
            "dotnet"@,
            ".NET"@,
            "🔷"@,
            file,
            Seq::empty(),
            file,
            rel,
            none,
        );
    }
}

/// Whether a project has that label and that sign.
pub open spec fn is_labelled(p: Json, label: Seq<char>, icon: Seq<char>) -> bool {
    p.at("type_label"@) == Json::Str(label) && p.at("icon"@) == Json::Str(icon)
}

/// Each kind of project has its label and its sign.
pub proof fn projects_have_their_label(
    doc: Json,
    text: Seq<char>,
    m: Manifests,
    dir_name: Seq<char>,
    rel: Seq<char>,
)
    ensures
        is_labelled(cargo_tree(doc, dir_name, rel), "Rust"@, "🦀"@),
        is_labelled(npm_tree(doc, dir_name, rel), "Node.js"@, "⬢"@),
        is_labelled(composer_tree(doc, dir_name, rel), "PHP"@, "🐘"@),
        is_labelled(pyproject_tree(doc, dir_name, rel), "Python"@, "🐍"@),
        is_labelled(requirements_tree(text, dir_name, rel), "Python"@, "🐍"@),
        is_labelled(go_tree(text, dir_name, rel), "Go"@, "🐹"@),
        is_labelled(maven_tree(text, dir_name, rel), "Java (Maven)"@, "☕"@),
        is_labelled(gemfile_tree(text, dir_name, rel), "Ruby"@, "💎"@),
        is_labelled(pubspec_tree(text, dir_name, rel), "Dart/Flutter"@, "🎯"@),
        candidate(m, 7, dir_name, rel) matches Some(p) ==> is_labelled(p, "Java (Gradle)"@, "☕"@),
        candidate(m, 9, dir_name, rel) matches Some(p) ==> is_labelled(p, "Elixir"@, "💧"@),
        candidate(m, 11, dir_name, rel) matches Some(p) ==> is_labelled(p, ".NET"@, "🔷"@),
{
    broadcast use lemma_lookup_push;

    lemma_project_names();
}

/// A dependency is told with its name, its version and its kind.
pub proof fn dependencies_say_what_they_are(d: DepView)
    ensures
        dep_tree(d).at("name"@) == Json::Str(d.name),
        dep_tree(d).at("version"@) == Json::Str(d.version),
        dep_tree(d).at("kind"@) == Json::Str(d.kind),
{
    broadcast use lemma_lookup_push;

    lemma_project_names();
}

} // verus!
