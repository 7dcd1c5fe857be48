//! `ordo add`: which source each requested package comes from, and the
//! inline table written for it under `[dependencies]`.
use vstd::prelude::*;
use crate::cli::{git_repo_name, repo_name, ParsedSpec};
use crate::providers::{expand_git_shorthand, expanded_git_url};
use crate::text::{decimal, str_eq, strs, u64_to_string};

verus! {

/// A value in a dependency's inline table.
#[derive(Debug)]
pub enum EntryValue {
    Text(String),
    List(Vec<String>),
}

/// A value in a dependency's inline table, as plain text.
pub enum EntryValueView {
    Text(Seq<char>),
    List(Seq<Seq<char>>),
}

impl View for EntryValue {
    type V = EntryValueView;

    open spec fn view(&self) -> EntryValueView {
        match self {
            EntryValue::Text(s) => EntryValueView::Text(s@),
            EntryValue::List(v) => EntryValueView::List(strs(v@)),
        }
    }
}

/// One key of a dependency's inline table, in the order it is written.
#[derive(Debug)]
pub struct DepField {
    pub key: String,
    pub value: EntryValue,
}

pub open spec fn fields_view(v: Seq<DepField>) -> Seq<(Seq<char>, EntryValueView)> {
    v.map_values(|f: DepField| (f.key@, f.value@))
}

pub open spec fn text_field(k: Seq<char>, v: Seq<char>) -> (Seq<char>, EntryValueView) {
    (k, EntryValueView::Text(v))
}

/// A provider that `ordo add` asks a package tool about.
pub open spec fn is_tool_provider(p: Seq<char>) -> bool {
    p == "pkg-config"@ || p == "system"@ || p == "vcpkg"@ || p == "conan"@
}

/// The table for a provider, before `alias` and `link-name`: a version and
/// the provider for a package tool; a path (`.` by default); a git URL,
/// which the version then holds. `None` for a git package without a URL
/// and for an unknown provider.
pub open spec fn base_fields(provider: Seq<char>, version: Option<Seq<char>>) -> Option<
    Seq<(Seq<char>, EntryValueView)>,
> {
    if is_tool_provider(provider) {
        Some(
            (match version {
                Some(v) => seq![text_field("version"@, v)],
                None => Seq::empty(),
            }).push(text_field("provider"@, provider)),
        )
    } else if provider == "path"@ {
        Some(
            seq![text_field("path"@, match version {
                Some(v) => v,
                None => "."@,
            })],
        )
    } else if provider == "git"@ {
        match version {
            Some(u) => Some(seq![text_field("git"@, u)]),
            None => None,
        }
    } else {
        None
    }
}

/// The keys that follow: an alias, then the link name (a list when more
/// than one is given).
pub open spec fn extra_fields(alias: Option<Seq<char>>, link_name: Option<Seq<Seq<char>>>) -> Seq<
    (Seq<char>, EntryValueView),
> {
    (match alias {
        Some(a) => seq![text_field("alias"@, a)],
        None => Seq::empty(),
    }) + (match link_name {
        Some(n) => if n.len() == 1 {
            seq![text_field("link-name"@, n[0])]
        } else {
            seq![("link-name"@, EntryValueView::List(n))]
        },
        None => Seq::empty(),
    })
}

pub open spec fn git_needs_url_message() -> Seq<char> {
    "git provider requires a URL as version (e.g. raylib@https://...)"@
}

pub open spec fn unknown_provider_message(p: Seq<char>) -> Seq<char> {
    "unknown provider '"@ + p + "'\n  valid providers: pkg-config, system, vcpkg, conan, path, git"@
}

fn text(k: &str, v: &str) -> (f: DepField)
    ensures
        f.key@ == k@,
        f.value@ == EntryValueView::Text(v@),
{
    DepField { key: k.to_string(), value: EntryValue::Text(v.to_string()) }
}

fn push_field(r: &mut Vec<DepField>, f: DepField)
    ensures
        fields_view(final(r)@) == fields_view(old(r)@).push((f.key@, f.value@)),
{
    let ghost before = fields_view(r@);
    r.push(f);
    assert(fields_view(r@) =~= before.push((f.key@, f.value@)));
}

/// The inline table for a package from `provider`.
pub fn build_dep_value(
    provider: &str,
    version: Option<&str>,
    alias: Option<&str>,
    link_name: Option<&Vec<String>>,
) -> (r: Result<Vec<DepField>, String>)
    ensures
        ({
            let v = match version {
                Some(s) => Some(s@),
                None => None,
            };
            let a = match alias {
                Some(s) => Some(s@),
                None => None,
            };
            let l = match link_name {
                Some(n) => Some(strs(n@)),
                None => None,
            };
            match base_fields(provider@, v) {
                Some(b) => r is Ok && fields_view(r->Ok_0@) == b + extra_fields(a, l),
                None => r is Err && r->Err_0@ == (if provider@ == "git"@ {
                    git_needs_url_message()
                } else {
                    unknown_provider_message(provider@)
                }),
            }
        }),
{
    let mut r: Vec<DepField> = Vec::new();
    if str_eq(provider, "pkg-config") || str_eq(provider, "system") || str_eq(provider, "vcpkg") || str_eq(
        provider,
        "conan",
    ) {
        if let Some(v) = version {
            push_field(&mut r, text("version", v));
        }
        push_field(&mut r, text("provider", provider));
    } else if str_eq(provider, "path") {
        let path = match version {
            Some(v) => v,
            None => ".",
        };
        push_field(&mut r, text("path", path));
    } else if str_eq(provider, "git") {
        match version {
            Some(u) => push_field(&mut r, text("git", u)),
            None => {
                return Err("git provider requires a URL as version (e.g. raylib@https://...)".to_string());
            },
        }
    } else {
        let mut e = "unknown provider '".to_string();
        e.append(provider);
        e.append("'\n  valid providers: pkg-config, system, vcpkg, conan, path, git");
        return Err(e);
    }
    let ghost base = fields_view(r@);
    if let Some(a) = alias {
        push_field(&mut r, text("alias", a));
    }
    if let Some(names) = link_name {
        if names.len() == 1 {
            push_field(&mut r, text("link-name", names[0].as_str()));
        } else {
            let copy = names.clone();
            assert(strs(copy@) =~= strs(names@));
            let f = DepField { key: "link-name".to_string(), value: EntryValue::List(copy) };
            push_field(&mut r, f);
        }
    }
    proof {
        let a = match alias {
            Some(s) => Some(s@),
            None => None,
        };
        let l = match link_name {
            Some(n) => Some(strs(n@)),
            None => None,
        };
        assert(fields_view(r@) =~= base + extra_fields(a, l));
    }
    Ok(r)
}

/// No two fields of a table share a key.
pub open spec fn keys_distinct(f: Seq<(Seq<char>, EntryValueView)>) -> bool {
    forall|i: int, j: int| 0 <= i < j < f.len() ==> f[i].0 != f[j].0
}

/// The inline table written for a package names no key twice, whatever
/// the provider, version, alias and link names.
pub proof fn lemma_dep_value_keys_distinct(
    provider: Seq<char>,
    version: Option<Seq<char>>,
    alias: Option<Seq<char>>,
    link_name: Option<Seq<Seq<char>>>,
)
    requires
        base_fields(provider, version) is Some,
    ensures
        keys_distinct(base_fields(provider, version)->0 + extra_fields(alias, link_name)),
{
    reveal_strlit("version");
    reveal_strlit("provider");
    reveal_strlit("path");
    reveal_strlit("git");
    reveal_strlit("alias");
    reveal_strlit("link-name");
    let f = base_fields(provider, version)->0 + extra_fields(alias, link_name);
    let allowed = seq!["version"@, "provider"@, "path"@, "git"@, "alias"@, "link-name"@];
    assert forall|a: int, b: int| 0 <= a < b < 6 implies allowed[a] != allowed[b] by {
        if allowed[a].len() == allowed[b].len() {
            assert(allowed[a][0] != allowed[b][0]);
        }
    }
    // each field's key is one of the allowed keys, and their positions in
    // that list increase along the table
    let rank = |k: Seq<char>| if k == "version"@ {
        0int
    } else if k == "provider"@ {
        1int
    } else if k == "path"@ {
        2int
    } else if k == "git"@ {
        3int
    } else if k == "alias"@ {
        4int
    } else {
        5int
    };
    assert forall|i: int, j: int| 0 <= i < j < f.len() implies f[i].0 != f[j].0 by {
        assert(0 <= rank(f[i].0) < 6 && allowed[rank(f[i].0)] == f[i].0);
        assert(0 <= rank(f[j].0) < 6 && allowed[rank(f[j].0)] == f[j].0);
        assert(rank(f[i].0) < rank(f[j].0));
    }
}

/// The table of a git package names no key twice.
pub proof fn lemma_git_fields_keys_distinct(url: Seq<char>, tag: Option<Seq<char>>, with: Option<Seq<char>>)
    ensures
        keys_distinct(git_fields(url, tag, with)),
{
    reveal_strlit("git");
    reveal_strlit("tag");
    reveal_strlit("with");
    let f = git_fields(url, tag, with);
    assert("git"@ != "tag"@) by {
        assert("git"@[0] != "tag"@[0]);
    }
    assert("git"@ != "with"@) by {
        assert("git"@.len() != "with"@.len());
    }
    assert("tag"@ != "with"@) by {
        assert("tag"@.len() != "with"@.len());
    }
    assert forall|i: int, j: int| 0 <= i < j < f.len() implies f[i].0 != f[j].0 by {
        if i == 0 {
            assert(f[i].0 == "git"@);
        } else {
            assert(f[i].0 == "tag"@ && f[j].0 == "with"@);
        }
    }
}

/// The table for a git package: its URL, then the tag and the `with`
/// requirement where given.
pub open spec fn git_fields(url: Seq<char>, tag: Option<Seq<char>>, with: Option<Seq<char>>) -> Seq<
    (Seq<char>, EntryValueView),
> {
    seq![text_field("git"@, url)] + (match tag {
        Some(t) => seq![text_field("tag"@, t)],
        None => Seq::empty(),
    }) + (match with {
        Some(w) => seq![text_field("with"@, w)],
        None => Seq::empty(),
    })
}

pub fn git_dep_value(url: &str, tag: Option<&str>, with: Option<&str>) -> (r: Vec<DepField>)
    ensures
        fields_view(r@) == git_fields(
            url@,
            match tag {
                Some(s) => Some(s@),
                None => None,
            },
            match with {
                Some(s) => Some(s@),
                None => None,
            },
        ),
{
    let mut r: Vec<DepField> = Vec::new();
    push_field(&mut r, text("git", url));
    if let Some(t) = tag {
        push_field(&mut r, text("tag", t));
    }
    if let Some(w) = with {
        push_field(&mut r, text("with", w));
    }
    proof {
        let t = match tag {
            Some(s) => Some(s@),
            None => None,
        };
        let w = match with {
            Some(s) => Some(s@),
            None => None,
        };
        assert(fields_view(r@) =~= git_fields(url@, t, w));
    }
    r
}

/// Options that name one package, refused when several are added at once
/// (checked in this order: `--alias`, `--link-name`, `--with`).
pub fn check_single_spec_options(n_specs: usize, alias: bool, link_name: bool, with: bool) -> (r: Result<
    (),
    String,
>)
    ensures
        (n_specs <= 1 || !(alias || link_name || with)) <==> r is Ok,
        n_specs > 1 && alias ==> (r matches Err(e) && e@
            == "`--alias` can only be used with a single package spec"@),
        n_specs > 1 && !alias && link_name ==> (r matches Err(e) && e@
            == "`--link-name` can only be used with a single package spec"@),
        n_specs > 1 && !alias && !link_name && with ==> (r matches Err(e) && e@
            == "`--with` can only be used with a single package spec"@),
{
    if n_specs > 1 {
        if alias {
            return Err("`--alias` can only be used with a single package spec".to_string());
        }
        if link_name {
            return Err("`--link-name` can only be used with a single package spec".to_string());
        }
        if with {
            return Err("`--with` can only be used with a single package spec".to_string());
        }
    }
    Ok(())
}

/// What `ordo add` does with one requested package.
#[derive(Debug)]
pub enum AddStep {
    /// Add a git dependency under the repository's name.
    Git { name: String, url: String, tag: Option<String> },
    /// Add the package from this provider.
    Provider { provider: String },
    /// Record this package as failed, for this reason.
    Fail(String),
    /// Ask the user for the provider, then decide again with it.
    AskProvider,
}

pub open spec fn no_provider_message() -> Seq<char> {
    "no provider specified (use -P or provider:name syntax)"@
}

pub open spec fn with_not_git_message() -> Seq<char> {
    "`--with` is only valid for git dependencies"@
}

/// The step for one package: the `-P` flag wins over a `provider:` prefix;
/// with neither, one package is asked about and one of several fails; a git
/// package takes its URL and name from the spec and its tag from the
/// version; `--with` is refused for any other.
pub fn plan_add(parsed: &ParsedSpec, provider_flag: Option<&str>, many: bool, has_with: bool) -> (r: AddStep)
    ensures
        ({
            let chosen = match provider_flag {
                Some(p) => Some(p@),
                None => match parsed.provider {
                    Some(p) => Some(p@),
                    None => None,
                },
            };
            match chosen {
                None => if many {
                    r matches AddStep::Fail(e) && e@ == no_provider_message()
                } else {
                    r is AskProvider
                },
                Some(p) => if p == "git"@ {
                    r matches AddStep::Git { name, url, tag } && name@ == repo_name(parsed.name@) && url@
                        == expanded_git_url(parsed.name@) && match tag {
                        Some(t) => parsed.version == Some(t),
                        None => parsed.version is None,
                    }
                } else if has_with {
                    r matches AddStep::Fail(e) && e@ == with_not_git_message()
                } else {
                    r matches AddStep::Provider { provider } && provider@ == p
                },
            }
        }),
{
    let chosen: Option<String> = match provider_flag {
        Some(p) => Some(p.to_string()),
        None => match &parsed.provider {
            Some(p) => Some(p.clone()),
            None => None,
        },
    };
    match chosen {
        None => if many {
            AddStep::Fail("no provider specified (use -P or provider:name syntax)".to_string())
        } else {
            AddStep::AskProvider
        },
        Some(p) => if str_eq(p.as_str(), "git") {
            let tag = match &parsed.version {
                Some(t) => Some(t.clone()),
                None => None,
            };
            AddStep::Git {
                name: git_repo_name(parsed.name.as_str()),
                url: expand_git_shorthand(parsed.name.as_str()),
                tag,
            }
        } else if has_with {
            AddStep::Fail("`--with` is only valid for git dependencies".to_string())
        } else {
            AddStep::Provider { provider: p }
        },
    }
}

/// The version a provider reported, kept unless it is `system` or
/// `unknown` (which name no version).
pub fn kept_version(reported: &str) -> (r: Option<String>)
    ensures
        reported@ == "system"@ || reported@ == "unknown"@ <==> r is None,
        r matches Some(v) ==> v@ == reported@,
{
    if str_eq(reported, "system") || str_eq(reported, "unknown") {
        None
    } else {
        Some(reported.to_string())
    }
}

/// What is shown for an added package: `name v1.2 (provider)`.
pub fn added_message(name: &str, version: Option<&str>, provider: &str) -> (r: String)
    ensures
        r@ == name@ + (match version {
            Some(v) => " v"@ + v@,
            None => Seq::empty(),
        }) + " ("@ + provider@ + ")"@,
{
    let mut r = name.to_string();
    if let Some(v) = version {
        r.append(" v");
        r.append(v);
    }
    r.append(" (");
    r.append(provider);
    r.append(")");
    proof {
        let mid: Seq<char> = match version {
            Some(v) => " v"@ + v@,
            None => Seq::empty(),
        };
        assert(r@ =~= name@ + mid + " ("@ + provider@ + ")"@);
    }
    r
}

/// What is shown for an added git package: `name @tag (git) with req`.
pub fn added_git_message(name: &str, tag: Option<&str>, with: Option<&str>) -> (r: String)
    ensures
        r@ == name@ + (match tag {
            Some(t) => " @"@ + t@,
            None => Seq::empty(),
        }) + " (git)"@ + (match with {
            Some(w) => " with "@ + w@,
            None => Seq::empty(),
        }),
{
    let mut r = name.to_string();
    if let Some(t) = tag {
        r.append(" @");
        r.append(t);
    }
    r.append(" (git)");
    if let Some(w) = with {
        r.append(" with ");
        r.append(w);
    }
    proof {
        let a: Seq<char> = match tag {
            Some(t) => " @"@ + t@,
            None => Seq::empty(),
        };
        let b: Seq<char> = match with {
            Some(w) => " with "@ + w@,
            None => Seq::empty(),
        };
        assert(r@ =~= name@ + a + " (git)"@ + b);
    }
    r
}

/// `succeeded/total packages`.
pub open spec fn count_text(succeeded: nat, total: nat) -> Seq<char> {
    decimal(succeeded) + "/"@ + decimal(total) + " packages"@
}

/// How a run of `ordo add` ends, given each failed package with its
/// reason. With several packages: the count added (shown on success, the
/// error otherwise). With one: its reason, if it failed.
pub fn add_outcome(n_specs: usize, succeeded: usize, failures: &Vec<(String, String)>) -> (r: Result<
    Option<String>,
    String,
>)
    ensures
        n_specs > 1 && failures@.len() == 0 ==> (r matches Ok(Some(m)) && m@ == count_text(
            succeeded as nat,
            n_specs as nat,
        )),
        n_specs > 1 && failures@.len() > 0 ==> (r matches Err(e) && e@ == "Added "@ + count_text(
            succeeded as nat,
            n_specs as nat,
        )),
        n_specs <= 1 && failures@.len() == 0 ==> r matches Ok(None),
        n_specs <= 1 && failures@.len() > 0 ==> (r matches Err(e) && e@ == failures@[0].1@),
{
    if n_specs > 1 {
        let mut m = u64_to_string(succeeded as u64);
        m.append("/");
        m.append(u64_to_string(n_specs as u64).as_str());
        m.append(" packages");
        assert(m@ =~= count_text(succeeded as nat, n_specs as nat));
        if failures.len() == 0 {
            Ok(Some(m))
        } else {
            let mut e = "Added ".to_string();
            e.append(m.as_str());
            assert(e@ =~= "Added "@ + count_text(succeeded as nat, n_specs as nat));
            Err(e)
        }
    } else if failures.len() > 0 {
        Err(failures[0].1.clone())
    } else {
        Ok(None)
    }
}

/// What `toml_edit` reads under `key` of a document's text: the keys of
/// the table there (`None` when the value is not a table or is missing),
/// or the error it gives for text that is no TOML document.
pub uninterp spec fn toml_keys(text: Seq<char>, key: Seq<char>) -> Result<Option<Set<Seq<char>>>, Seq<char>>;

/// Whether `toml_edit`'s `contains_table(key)` holds of a document's text,
/// or the parse error.
pub uninterp spec fn toml_table_present(text: Seq<char>, key: Seq<char>) -> Result<bool, Seq<char>>;

/// The document's text after `toml_edit` sets `key` to an empty table and
/// renders it, or the parse error.
pub uninterp spec fn toml_with_table(text: Seq<char>, key: Seq<char>) -> Result<Seq<char>, Seq<char>>;

/// The document's text after `toml_edit` inserts, in the table under
/// `key`, the inline table `fields` under `name` and renders it, or the
/// parse error.
pub uninterp spec fn toml_with_entry(
    text: Seq<char>,
    key: Seq<char>,
    name: Seq<char>,
    fields: Seq<(Seq<char>, EntryValueView)>,
) -> Result<Seq<char>, Seq<char>>;

/// Parses `text` as a `toml_edit::DocumentMut` and reads the keys of the
/// table under `key`. The contract names the outcome and says no more.
#[verifier::external_body]
fn toml_table_keys(text: &str, key: &str) -> (r: Result<Option<Vec<String>>, String>)
    ensures
        match r {
            Ok(Some(v)) => toml_keys(text@, key@) == Ok::<Option<Set<Seq<char>>>, Seq<char>>(Some(strs(v@).to_set())),
            Ok(None) => toml_keys(text@, key@) == Ok::<Option<Set<Seq<char>>>, Seq<char>>(None),
            Err(e) => toml_keys(text@, key@) == Err::<Option<Set<Seq<char>>>, Seq<char>>(e@),
        },
{
    let doc = text.parse::<toml_edit::DocumentMut>().map_err(|e| e.to_string())?;
    Ok(doc.get(key).and_then(|i| i.as_table()).map(|t| t.iter().map(|(k, _)| k.to_string()).collect()))
}

/// Parses `text` as a `toml_edit::DocumentMut` and asks `contains_table`.
/// The contract names the outcome and says no more.
#[verifier::external_body]
fn toml_has_table(text: &str, key: &str) -> (r: Result<bool, String>)
    ensures
        match r {
            Ok(b) => toml_table_present(text@, key@) == Ok::<bool, Seq<char>>(b),
            Err(e) => toml_table_present(text@, key@) == Err::<bool, Seq<char>>(e@),
        },
{
    let doc = text.parse::<toml_edit::DocumentMut>().map_err(|e| e.to_string())?;
    Ok(doc.contains_table(key))
}

/// Parses `text` as a `toml_edit::DocumentMut`, sets `key` to
/// `toml_edit::table()` and renders the document. The contract names the
/// outcome; it also says that the rendered document then holds a table
/// under `key` (an empty table renders as its `[key]` header).
#[verifier::external_body]
fn toml_put_table(text: &str, key: &str) -> (r: Result<String, String>)
    ensures
        match r {
            Ok(t) => toml_with_table(text@, key@) == Ok::<Seq<char>, Seq<char>>(t@) && toml_table_present(t@, key@)
                == Ok::<bool, Seq<char>>(true),
            Err(e) => toml_with_table(text@, key@) == Err::<Seq<char>, Seq<char>>(e@),
        },
{
    let mut doc = text.parse::<toml_edit::DocumentMut>().map_err(|e| e.to_string())?;
    doc[key] = toml_edit::table();
    Ok(doc.to_string())
}

/// Parses `text` as a `toml_edit::DocumentMut`, inserts the inline table
/// of `fields` under `name` in the table under `key` (which must be one)
/// and renders the document. The contract names the outcome.
#[verifier::external_body]
fn toml_put_entry(text: &str, key: &str, name: &str, fields: &Vec<DepField>) -> (r: Result<String, String>)
    requires
        toml_table_present(text@, key@) == Ok::<bool, Seq<char>>(true),
    ensures
        match r {
            Ok(t) => toml_with_entry(text@, key@, name@, fields_view(fields@)) == Ok::<Seq<char>, Seq<char>>(t@),
            Err(e) => toml_with_entry(text@, key@, name@, fields_view(fields@)) == Err::<Seq<char>, Seq<char>>(e@),
        },
{
    let mut doc = text.parse::<toml_edit::DocumentMut>().map_err(|e| e.to_string())?;
    let mut table = toml_edit::InlineTable::new();
    for f in fields.iter() {
        table.insert(&f.key, match &f.value {
            EntryValue::Text(s) => toml_edit::Value::from(s.as_str()),
            EntryValue::List(v) => toml_edit::Value::Array(v.iter().map(|s| s.as_str()).collect()),
        });
    }
    doc[key][name] = toml_edit::value(table);
    Ok(doc.to_string())
}

/// The table of a manifest that lists its dependencies.
pub open spec fn deps_key() -> Seq<char> {
    "dependencies"@
}

/// The names under `[dependencies]`: none when the manifest has no such
/// table (or holds something else there).
pub open spec fn dep_names_of(text: Seq<char>) -> Result<Set<Seq<char>>, Seq<char>> {
    match toml_keys(text, deps_key()) {
        Err(e) => Err(e),
        Ok(None) => Ok(Set::empty()),
        Ok(Some(ks)) => Ok(ks),
    }
}

/// The names under `[dependencies]` of a manifest's text.
pub fn dependency_names(text: &str) -> (r: Result<Vec<String>, String>)
    ensures
        match dep_names_of(text@) {
            Ok(ns) => r is Ok && strs(r->Ok_0@).to_set() == ns,
            Err(e) => r is Err && r->Err_0@ == e,
        },
{
    match toml_table_keys(text, "dependencies") {
        Ok(Some(v)) => Ok(v),
        Ok(None) => {
            let v: Vec<String> = Vec::new();
            assert(strs(v@).to_set() =~= Set::<Seq<char>>::empty());
            Ok(v)
        },
        Err(e) => Err(e),
    }
}

/// `r` is what a named outcome says.
pub open spec fn outcome_is(r: Result<String, String>, x: Result<Seq<char>, Seq<char>>) -> bool {
    match x {
        Ok(t) => r is Ok && r->Ok_0@ == t,
        Err(e) => r is Err && r->Err_0@ == e,
    }
}

/// The manifest's text with the inline table `fields` under `name` in
/// `[dependencies]`: the table is made first when the document has none.
pub open spec fn with_dependency(
    text: Seq<char>,
    name: Seq<char>,
    fields: Seq<(Seq<char>, EntryValueView)>,
) -> Result<Seq<char>, Seq<char>> {
    match toml_table_present(text, deps_key()) {
        Err(e) => Err(e),
        Ok(true) => toml_with_entry(text, deps_key(), name, fields),
        Ok(false) => match toml_with_table(text, deps_key()) {
            Err(e) => Err(e),
            Ok(t) => toml_with_entry(t, deps_key(), name, fields),
        },
    }
}

/// Puts the inline table `fields` under `name` in `[dependencies]` of a
/// manifest's text, making that table first when the document has none.
pub fn insert_dependency(text: &str, name: &str, fields: &Vec<DepField>) -> (r: Result<String, String>)
    ensures
        outcome_is(r, with_dependency(text@, name@, fields_view(fields@))),
{
    let present = toml_has_table(text, "dependencies")?;
    if present {
        toml_put_entry(text, "dependencies", name, fields)
    } else {
        let with_table = toml_put_table(text, "dependencies")?;
        toml_put_entry(with_table.as_str(), "dependencies", name, fields)
    }
}

pub open spec fn already_added_message(name: Seq<char>) -> Seq<char> {
    "dependency '"@ + name + "' already exists in [dependencies]"@
}

/// Refuses a package whose name is already under `[dependencies]` of a
/// manifest's text (checked before the package is looked up); a text that
/// is no TOML document gives its parse error.
pub fn check_not_added(text: &str, name: &str) -> (r: Result<(), String>)
    ensures
        dep_names_of(text@) is Err ==> (r is Err && r->Err_0@ == dep_names_of(text@)->Err_0),
        (dep_names_of(text@) is Ok && dep_names_of(text@)->Ok_0.contains(name@)) ==> (r is Err && r->Err_0@
            == already_added_message(name@)),
        (dep_names_of(text@) is Ok && !dep_names_of(text@)->Ok_0.contains(name@)) ==> r is Ok,
{
    let names = dependency_names(text)?;
    if crate::text::contains_str(&names, name) {
        let mut e = "dependency '".to_string();
        e.append(name);
        e.append("' already exists in [dependencies]");
        return Err(e);
    }
    Ok(())
}

/// Adds a dependency to the text of a manifest: refused when its name is
/// already a key of `[dependencies]`; otherwise inserted as
/// `insert_dependency` does, keeping the rest of the document as it was.
pub fn add_dependency_text(text: &str, name: &str, fields: &Vec<DepField>) -> (r: Result<String, String>)
    ensures
        dep_names_of(text@) is Err ==> (r is Err && r->Err_0@ == dep_names_of(text@)->Err_0),
        (dep_names_of(text@) is Ok && dep_names_of(text@)->Ok_0.contains(name@)) ==> (r is Err && r->Err_0@
            == already_added_message(name@)),
        (dep_names_of(text@) is Ok && !dep_names_of(text@)->Ok_0.contains(name@)) ==> outcome_is(
            r,
            with_dependency(text@, name@, fields_view(fields@)),
        ),
{
    check_not_added(text, name)?;
    insert_dependency(text, name, fields)
}

} // verus!
