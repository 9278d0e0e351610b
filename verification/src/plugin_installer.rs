//! Installing the perch-bridge plugin into opencode's configuration directory:
//! where it goes, whether an installed copy is recent enough, and how the
//! plugin is registered in `opencode.jsonc`.
use crate::text::{chars_of, has_prefix, lex_less, string_of, text_at_least, trim, trim_bounds};
use vstd::prelude::*;
use vstd::string::StringExecFns;

verus! {

/// Plugin version: bump this when the plugin API changes.
pub const PLUGIN_VERSION: &'static str = "0.2.0";

/// Marker at the top of the plugin file to detect version.
pub const VERSION_MARKER: &'static str = "// Version: ";

/// `base` with the relative component `component` appended, as `PathBuf::join`
/// does on Unix: a `/` goes between them unless `base` is empty or already ends
/// with one.
pub open spec fn join_path(base: Seq<char>, component: Seq<char>) -> Seq<char> {
    if base.len() == 0 || base.last() == '/' {
        base + component
    } else {
        base + seq!['/'] + component
    }
}

/// Joins a relative component to a path.
pub fn join(base: &str, component: &str) -> (r: String)
    ensures
        r@ == join_path(base@, component@),
{
    let chars = chars_of(base);
    let mut r = base.to_owned();
    if chars.len() > 0 && chars[chars.len() - 1] != '/' {
        r.append("/");
        proof {
            reveal_strlit("/");
        }
    }
    r.append(component);
    assert(r@ =~= join_path(base@, component@));
    r
}

/// The user's configuration directory: `$XDG_CONFIG_HOME` when it is set,
/// else `$HOME/.config` when `HOME` is set.
pub open spec fn config_base_dir(xdg_config_home: Option<Seq<char>>, home: Option<Seq<char>>) -> Option<Seq<char>> {
    match xdg_config_home {
        Some(x) => Some(x),
        None => match home {
            Some(h) => Some(join_path(h, ".config"@)),
            None => None,
        },
    }
}

/// Get the user's config directory cross-platform, from the values of
/// `XDG_CONFIG_HOME` and `HOME`.
pub fn dirs(xdg_config_home: Option<&str>, home: Option<&str>) -> (r: Option<String>)
    ensures
        (match r {
            Some(d) => Some(d@),
            None => None,
        }) == config_base_dir(
            match xdg_config_home {
                Some(x) => Some(x@),
                None => None,
            },
            match home {
                Some(h) => Some(h@),
                None => None,
            },
        ),
{
    match xdg_config_home {
        Some(x) => Some(x.to_owned()),
        None => match home {
            Some(h) => Some(join(h, ".config")),
            None => None,
        },
    }
}

/// Get the opencode config directory (`<config dir>/opencode`).
pub fn opencode_config_dir(xdg_config_home: Option<&str>, home: Option<&str>) -> (r: Option<String>)
    ensures
        (match r {
            Some(d) => Some(d@),
            None => None,
        }) == (match config_base_dir(
            match xdg_config_home {
                Some(x) => Some(x@),
                None => None,
            },
            match home {
                Some(h) => Some(h@),
                None => None,
            },
        ) {
            Some(b) => Some(join_path(b, "opencode"@)),
            None => None,
        }),
{
    match dirs(xdg_config_home, home) {
        Some(d) => Some(join(d.as_str(), "opencode")),
        None => None,
    }
}

/// Where the installer reads and writes, under opencode's config directory.
pub struct InstallPaths {
    /// `<dir>/plugin`
    pub plugin_dir: String,
    /// `<dir>/plugin/perch-bridge.js`
    pub plugin_path: String,
    /// `<dir>/opencode.jsonc`
    pub config_path: String,
}

/// The installer's paths under the config directory `config_dir`.
pub fn install_paths(config_dir: &str) -> (p: InstallPaths)
    ensures
        p.plugin_dir@ == join_path(config_dir@, "plugin"@),
        p.plugin_path@ == join_path(join_path(config_dir@, "plugin"@), "perch-bridge.js"@),
        p.config_path@ == join_path(config_dir@, "opencode.jsonc"@),
{
    let plugin_dir = join(config_dir, "plugin");
    let plugin_path = join(plugin_dir.as_str(), "perch-bridge.js");
    let config_path = join(config_dir, "opencode.jsonc");
    InstallPaths { plugin_dir, plugin_path, config_path }
}

/// `line` without one trailing carriage return.
pub open spec fn strip_cr(line: Seq<char>) -> Seq<char> {
    if line.len() > 0 && line.last() == '\r' {
        line.drop_last()
    } else {
        line
    }
}

/// The lines of `s` ended so far, and the line under way.
pub open spec fn line_fold(s: Seq<char>) -> (Seq<Seq<char>>, Seq<char>)
    decreases s.len(),
{
    if s.len() == 0 {
        (seq![], seq![])
    } else {
        let (done, cur) = line_fold(s.drop_last());
        if s.last() == '\n' {
            (done.push(strip_cr(cur)), seq![])
        } else {
            (done, cur.push(s.last()))
        }
    }
}

/// The lines of `s` as `str::lines` gives them: split at `\n`, a `\r` right
/// before a `\n` dropped, and no empty line after a final `\n`.
pub open spec fn lines_of(s: Seq<char>) -> Seq<Seq<char>> {
    let (done, cur) = line_fold(s);
    if cur.len() > 0 {
        done.push(cur)
    } else {
        done
    }
}

/// The version that `line` declares, if it starts with the version marker:
/// the rest of the line, trimmed.
pub open spec fn line_version(line: Seq<char>) -> Option<Seq<char>> {
    if VERSION_MARKER@.is_prefix_of(line) {
        Some(trim(line.skip(VERSION_MARKER@.len() as int)))
    } else {
        None
    }
}

/// The version declared by the first line of `lines` that declares one.
pub open spec fn first_version(lines: Seq<Seq<char>>) -> Option<Seq<char>>
    decreases lines.len(),
{
    if lines.len() == 0 {
        None
    } else if line_version(lines[0]) is Some {
        line_version(lines[0])
    } else {
        first_version(lines.drop_first())
    }
}

/// Adding a line at the end changes the first version only if there was none.
proof fn lemma_first_version_push(lines: Seq<Seq<char>>, line: Seq<char>)
    ensures
        first_version(lines.push(line)) == (if first_version(lines) is Some {
            first_version(lines)
        } else {
            line_version(line)
        }),
    decreases lines.len(),
{
    if lines.len() == 0 {
        assert(lines.push(line).drop_first() =~= Seq::<Seq<char>>::empty());
        assert(lines.push(line)[0] == line);
        assert(first_version(lines.push(line).drop_first()) is None);
    } else {
        assert(lines.push(line)[0] == lines[0]);
        assert(lines.push(line).drop_first() =~= lines.drop_first().push(line));
        lemma_first_version_push(lines.drop_first(), line);
    }
}

/// Checks one complete line `v[lo..hi]` for the version marker.
fn version_of_line(v: &[char], lo: usize, hi: usize, marker: &[char]) -> (r: Option<String>)
    requires
        lo <= hi <= v@.len(),
        marker@ == VERSION_MARKER@,
    ensures
        (match r {
            Some(s) => Some(s@),
            None => None,
        }) == line_version(v@.subrange(lo as int, hi as int)),
{
    if has_prefix(v, lo, hi, marker) {
        let (a, b) = trim_bounds(v, lo + marker.len(), hi);
        assert(v@.subrange(lo as int, hi as int).skip(marker@.len() as int) =~= v@.subrange(
            lo + marker@.len(),
            hi as int,
        ));
        Some(string_of(v, a, b))
    } else {
        None
    }
}

/// Extract version string from plugin content: the rest, trimmed, of the first
/// line that starts with the version marker.
pub fn extract_version(content: &str) -> (r: Option<String>)
    ensures
        (match r {
            Some(s) => Some(s@),
            None => None,
        }) == first_version(lines_of(content@)),
{
    let v = chars_of(content);
    let marker = chars_of(VERSION_MARKER);
    let mut found: Option<String> = None;
    let mut start: usize = 0;
    let mut i: usize = 0;
    assert(v@.take(0) =~= Seq::<char>::empty());
    while i < v.len()
        invariant
            v@ == content@,
            marker@ == VERSION_MARKER@,
            start <= i <= v@.len(),
            line_fold(v@.take(i as int)).1 == v@.subrange(start as int, i as int),
            (match found {
                Some(s) => Some(s@),
                None => None,
            }) == first_version(line_fold(v@.take(i as int)).0),
        decreases v.len() - i,
    {
        let ghost done = line_fold(v@.take(i as int)).0;
        assert(v@.take(i + 1).drop_last() =~= v@.take(i as int));
        if v[i] == '\n' {
            let end = if i > start && v[i - 1] == '\r' {
                i - 1
            } else {
                i
            };
            assert(v@.subrange(start as int, end as int) =~= strip_cr(
                v@.subrange(start as int, i as int),
            ));
            proof {
                lemma_first_version_push(done, strip_cr(v@.subrange(start as int, i as int)));
            }
            if found.is_none() {
                found = version_of_line(v.as_slice(), start, end, marker.as_slice());
            }
            start = i + 1;
        } else {
            assert(v@.subrange(start as int, i + 1) =~= v@.subrange(start as int, i as int).push(
                v@[i as int],
            ));
        }
        i = i + 1;
    }
    assert(v@.take(v@.len() as int) =~= v@);
    let ghost done = line_fold(v@).0;
    if start < v.len() {
        proof {
            lemma_first_version_push(done, v@.subrange(start as int, v@.len() as int));
        }
        if found.is_none() {
            found = version_of_line(v.as_slice(), start, v.len(), marker.as_slice());
        }
    }
    found
}

/// What to do about the plugin file.
#[derive(Debug, Clone, Copy, PartialEq, Eq, Structural)]
pub enum InstallDecision {
    /// The installed plugin is at least as recent as this one: keep it, and
    /// only make sure that it is registered.
    KeepInstalled,
    /// Write this plugin (first run, an older version, or no version marker).
    Install,
}

/// The decision for the installed plugin file's content (`None` when there is
/// no file, or it could not be read).
pub open spec fn install_decision(existing: Option<Seq<char>>) -> InstallDecision {
    match existing {
        Some(content) => match first_version(lines_of(content)) {
            Some(version) => if !lex_less(version, PLUGIN_VERSION@) {
                InstallDecision::KeepInstalled
            } else {
                InstallDecision::Install
            },
            None => InstallDecision::Install,
        },
        None => InstallDecision::Install,
    }
}

/// Decides whether to write the plugin, from the installed file's content.
pub fn decide_install(existing: Option<&str>) -> (d: InstallDecision)
    ensures
        d == install_decision(
            match existing {
                Some(c) => Some(c@),
                None => None,
            },
        ),
{
    match existing {
        Some(content) => match extract_version(content) {
            Some(version) => if text_at_least(version.as_str(), PLUGIN_VERSION) {
                InstallDecision::KeepInstalled
            } else {
                InstallDecision::Install
            },
            None => InstallDecision::Install,
        },
        None => InstallDecision::Install,
    }
}

#[verifier::external_type_specification]
#[verifier::external_body]
pub struct ExJsonValue(serde_json::Value);

/// Whether the JSON value `v` is an object (`Value::is_object`).
pub uninterp spec fn json_is_object(v: serde_json::Value) -> bool;

/// The member of the JSON value `v` under `key`, as `Value::get` with a string
/// key gives it: `None` when `v` is not an object or has no such member.
pub uninterp spec fn json_member(v: serde_json::Value, key: Seq<char>) -> Option<serde_json::Value>;

/// The items of the JSON value `v` when it is an array (`Value::as_array`);
/// `None` when `v` is not an array.
pub uninterp spec fn json_array(v: serde_json::Value) -> Option<Seq<serde_json::Value>>;

/// The text of the JSON value `v` when it is a string (`Value::as_str`);
/// `None` otherwise.
pub uninterp spec fn json_str(v: serde_json::Value) -> Option<Seq<char>>;

/// The JSON string value that `Value::from` makes of the text `text`.
pub uninterp spec fn json_string(text: Seq<char>) -> serde_json::Value;

/// The text that `serde_json::to_string_pretty` writes for `v`.
pub uninterp spec fn json_pretty(v: serde_json::Value) -> Seq<char>;

/// The value that `serde_json::from_str` reads from `text`, `None` when the
/// text is not JSON.
pub uninterp spec fn json_parse(text: Seq<char>) -> Option<serde_json::Value>;

/// What a JSON value holds under a key.
#[derive(Debug, Clone, Copy, PartialEq, Eq, Structural)]
pub enum MemberShape {
    /// The value is not a JSON object.
    NotAnObject,
    /// The object has no member under the key.
    Missing,
    /// The member is there and is not an array.
    NotAnArray,
    /// The member is an array.
    Array,
}

/// What the JSON value `v` holds under `key`.
pub open spec fn member_shape(v: serde_json::Value, key: Seq<char>) -> MemberShape {
    if !json_is_object(v) {
        MemberShape::NotAnObject
    } else {
        match json_member(v, key) {
            None => MemberShape::Missing,
            Some(m) => if json_array(m) is Some {
                MemberShape::Array
            } else {
                MemberShape::NotAnArray
            },
        }
    }
}

/// The items of the array that `v` holds under `key`; `None` when `v` holds
/// no array there.
pub open spec fn array_under(v: serde_json::Value, key: Seq<char>) -> Option<Seq<serde_json::Value>> {
    match json_member(v, key) {
        Some(m) => json_array(m),
        None => None,
    }
}

/// The items of the array that `v` holds under `key`; empty when there is none.
pub open spec fn member_values(v: serde_json::Value, key: Seq<char>) -> Seq<serde_json::Value> {
    match json_member(v, key) {
        Some(m) => match json_array(m) {
            Some(items) => items,
            None => seq![],
        },
        None => seq![],
    }
}

/// The items of the array that `v` holds under `key`, each as its text when it
/// is a JSON string and `None` otherwise; empty when there is no array.
pub open spec fn member_items(v: serde_json::Value, key: Seq<char>) -> Seq<Option<Seq<char>>> {
    member_values(v, key).map_values(|x: serde_json::Value| json_str(x))
}

/// Calls `serde_json::from_str` for a `serde_json::Value`; the result (`None`
/// for text that is not JSON) is named `json_parse(text)`.
#[verifier::external_body]
fn parse_json(text: &str) -> (v: Option<serde_json::Value>)
    ensures
        v == json_parse(text@),
{
    serde_json::from_str(text).ok()
}

/// Calls `Value::is_object`.
#[verifier::external_body]
fn is_object(v: &serde_json::Value) -> (r: bool)
    ensures
        r == json_is_object(*v),
{
    v.is_object()
}

/// Calls `Value::get` with a string key.
#[verifier::external_body]
fn get_member<'a>(v: &'a serde_json::Value, key: &str) -> (r: Option<&'a serde_json::Value>)
    ensures
        match r {
            Some(m) => json_member(*v, key@) == Some(*m),
            None => json_member(*v, key@) is None,
        },
{
    v.get(key)
}

/// Calls `Value::as_array`, and hands out the items as their text with
/// `Value::as_str`.
#[verifier::external_body]
fn array_texts(v: &serde_json::Value) -> (r: Option<Vec<Option<String>>>)
    ensures
        match r {
            Some(items) => json_array(*v) is Some && items.deep_view() == json_array(
                *v,
            ).unwrap().map_values(|x: serde_json::Value| json_str(x)),
            None => json_array(*v) is None,
        },
{
    v.as_array().map(|a| a.iter().map(|x| x.as_str().map(|s| s.to_string())).collect())
}

/// Makes an empty JSON object (`Map::new`): it has no member at all.
#[verifier::external_body]
fn empty_object() -> (v: serde_json::Value)
    ensures
        json_is_object(v),
        forall|k: Seq<char>| #[trigger] json_member(v, k) is None,
{
    serde_json::Value::Object(serde_json::Map::new())
}

/// Puts the JSON string `value` (`Value::from`) under `key` of the object `v`
/// (`as_object_mut`, `Map::insert`), leaving every other member as it was.
#[verifier::external_body]
fn insert_string(v: &mut serde_json::Value, key: &str, value: &str)
    requires
        json_is_object(*old(v)),
    ensures
        json_is_object(*final(v)),
        json_member(*final(v), key@) == Some(json_string(value@)),
        forall|k: Seq<char>|
            k != key@ ==> #[trigger] json_member(*final(v), k) == json_member(*old(v), k),
{
    v.as_object_mut().unwrap().insert(key.to_string(), serde_json::Value::from(value));
}

/// Puts an empty array under `key` of the object `v` (`as_object_mut`,
/// `Map::insert`), leaving every other member as it was.
#[verifier::external_body]
fn insert_empty_array(v: &mut serde_json::Value, key: &str)
    requires
        json_is_object(*old(v)),
    ensures
        json_is_object(*final(v)),
        forall|k: Seq<char>|
            k != key@ ==> #[trigger] json_member(*final(v), k) == json_member(*old(v), k),
        array_under(*final(v), key@) == Some(Seq::<serde_json::Value>::empty()),
{
    v.as_object_mut().unwrap().insert(key.to_string(), serde_json::Value::Array(Vec::new()));
}

/// Appends the JSON string `item` (`Value::from`) to the array under `key` of
/// the object `v` (`as_object_mut`, `Map::get_mut`, `as_array_mut`,
/// `Vec::push`); every other member stays as it was, and the new item reads
/// back as `item` (`Value::as_str`). The member must be an array: `unwrap`
/// panics otherwise.
#[verifier::external_body]
fn push_string(v: &mut serde_json::Value, key: &str, item: &str)
    requires
        member_shape(*old(v), key@) == MemberShape::Array,
    ensures
        json_is_object(*final(v)),
        forall|k: Seq<char>|
            k != key@ ==> #[trigger] json_member(*final(v), k) == json_member(*old(v), k),
        array_under(*final(v), key@) == Some(
            member_values(*old(v), key@).push(json_string(item@)),
        ),
        json_str(member_values(*final(v), key@).last()) == Some(item@),
{
    v.as_object_mut().unwrap().get_mut(key).unwrap().as_array_mut().unwrap().push(serde_json::Value::from(item));
}

/// Calls `serde_json::to_string_pretty`; the result is named `json_pretty(v)`
/// (writing a `Value` does not fail; the empty string stands in if it did).
#[verifier::external_body]
fn pretty_json(v: &serde_json::Value) -> (s: String)
    ensures
        s@ == json_pretty(*v),
{
    serde_json::to_string_pretty(v).unwrap_or_default()
}

/// The entry that registers the plugin in opencode's `plugin` list.
pub const PLUGIN_ENTRY: &'static str = "./plugin/perch-bridge.js";

/// The schema of a fresh opencode configuration.
pub const CONFIG_SCHEMA: &'static str = "https://opencode.ai/config.json";

/// The key of opencode's plugin list.
pub const PLUGIN_KEY: &'static str = "plugin";

/// The key of a configuration's schema.
pub const SCHEMA_KEY: &'static str = "$schema";

/// Whether the configuration `config` already registers the plugin.
pub open spec fn is_registered(config: serde_json::Value) -> bool {
    &&& member_shape(config, PLUGIN_KEY@) == MemberShape::Array
    &&& member_items(config, PLUGIN_KEY@).contains(Some(PLUGIN_ENTRY@))
}

/// What registering the plugin comes to.
pub enum Registration {
    /// The configuration registers the plugin already; nothing is written.
    AlreadyRegistered,
    /// The configuration text to write (pretty JSON and a newline).
    Write(String),
}

/// Configurations in which the plugin cannot be registered (the application
/// stops on them).
#[derive(Debug, Clone, Copy, PartialEq, Eq, Structural)]
pub enum RegistrationError {
    /// The configuration is JSON but not an object.
    ConfigNotAnObject,
    /// The configuration's `plugin` member is not an array.
    PluginsNotAnArray,
}

/// `updated` is `config` with the plugin registered: an object with every
/// member of `config` but the plugin list as it was, and a plugin list that is
/// the old one (empty when missing) with the entry appended.
pub open spec fn registered_value(config: serde_json::Value, updated: serde_json::Value) -> bool {
    &&& json_is_object(updated)
    &&& forall|k: Seq<char>|
        k != PLUGIN_KEY@ ==> #[trigger] json_member(updated, k) == json_member(config, k)
    &&& array_under(updated, PLUGIN_KEY@) == Some(
        member_values(config, PLUGIN_KEY@).push(json_string(PLUGIN_ENTRY@)),
    )
    &&& member_items(updated, PLUGIN_KEY@) == member_items(config, PLUGIN_KEY@).push(
        Some(PLUGIN_ENTRY@),
    )
}

/// `text` is what registering the plugin in `config` writes: the pretty JSON
/// of `config` with the plugin registered, then a newline.
pub open spec fn is_registered_text(config: serde_json::Value, text: Seq<char>) -> bool {
    exists|updated: serde_json::Value|
        registered_value(config, updated) && text == #[trigger] json_pretty(updated) + "\n"@
}

/// `v` is the minimal configuration: an object that holds the schema and a
/// plugin list of just the entry, and nothing else.
pub open spec fn is_minimal_config(v: serde_json::Value) -> bool {
    &&& json_is_object(v)
    &&& json_member(v, SCHEMA_KEY@) == Some(json_string(CONFIG_SCHEMA@))
    &&& array_under(v, PLUGIN_KEY@) == Some(seq![json_string(PLUGIN_ENTRY@)])
    &&& member_items(v, PLUGIN_KEY@) == seq![Some(PLUGIN_ENTRY@)]
    &&& forall|k: Seq<char>|
        k != SCHEMA_KEY@ && k != PLUGIN_KEY@ ==> #[trigger] json_member(v, k) is None
}

/// `text` is the pretty JSON of the minimal configuration, then a newline.
pub open spec fn is_minimal_text(text: Seq<char>) -> bool {
    exists|v: serde_json::Value| is_minimal_config(v) && text == #[trigger] json_pretty(v) + "\n"@
}

/// `r` is the outcome of registering the plugin in `config`: nothing to write
/// when it is registered already, an error when `config` is not an object or
/// its plugin list is not an array, and else the text with the entry added.
pub open spec fn registration_outcome(
    config: serde_json::Value,
    r: Result<Registration, RegistrationError>,
) -> bool {
    if is_registered(config) {
        r matches Ok(Registration::AlreadyRegistered)
    } else {
        match member_shape(config, PLUGIN_KEY@) {
            MemberShape::NotAnObject => r == Err::<Registration, RegistrationError>(
                RegistrationError::ConfigNotAnObject,
            ),
            MemberShape::NotAnArray => r == Err::<Registration, RegistrationError>(
                RegistrationError::PluginsNotAnArray,
            ),
            _ => (r matches Ok(Registration::Write(text)) && is_registered_text(config, text@)),
        }
    }
}

/// Whether `items` holds the plugin entry.
fn holds_entry(items: &Vec<Option<String>>) -> (r: bool)
    ensures
        r == items.deep_view().contains(Some(PLUGIN_ENTRY@)),
{
    let mut i: usize = 0;
    while i < items.len()
        invariant
            i <= items@.len(),
            forall|k: int| 0 <= k < i ==> items.deep_view()[k] != Some(PLUGIN_ENTRY@),
        decreases items.len() - i,
    {
        assert(items.deep_view()[i as int] == items@[i as int].deep_view());
        match &items[i] {
            Some(s) => {
                if crate::text::same_text(s.as_str(), PLUGIN_ENTRY) {
                    assert(items.deep_view()[i as int] == Some(PLUGIN_ENTRY@));
                    return true;
                }
            },
            None => {},
        }
        i = i + 1;
    }
    false
}

/// Ensure the plugin is registered in the configuration `config`: say that
/// nothing is to be written when it is, else give the text to write.
pub fn plan_registration(config: serde_json::Value) -> (r: Result<Registration, RegistrationError>)
    ensures
        registration_outcome(config, r),
{
    let mut config = config;
    if !is_object(&config) {
        return Err(RegistrationError::ConfigNotAnObject);
    }
    match get_member(&config, PLUGIN_KEY) {
        Some(m) => match array_texts(m) {
            Some(items) => {
                if holds_entry(&items) {
                    return Ok(Registration::AlreadyRegistered);
                }
            },
            None => {
                return Err(RegistrationError::PluginsNotAnArray);
            },
        },
        None => {
            insert_empty_array(&mut config, PLUGIN_KEY);
        },
    }
    let ghost before = config;
    push_string(&mut config, PLUGIN_KEY, PLUGIN_ENTRY);
    proof {
        let vals = member_values(before, PLUGIN_KEY@).push(json_string(PLUGIN_ENTRY@));
        assert(vals.map_values(|x: serde_json::Value| json_str(x)) =~= member_items(
            before,
            PLUGIN_KEY@,
        ).push(Some(PLUGIN_ENTRY@)));
    }
    let mut text = pretty_json(&config);
    text.append("\n");
    assert(registered_value(before, config));
    assert(text@ == json_pretty(config) + "\n"@);
    assert(is_registered_text(before, text@));
    Ok(Registration::Write(text))
}

/// Registers the plugin in the configuration text `existing` (`None` when
/// there is no configuration file or it cannot be read). Text that is not JSON
/// counts as missing, and a missing configuration gives the minimal one: the
/// schema and the plugin entry.
pub fn registration_for(existing: Option<&str>) -> (r: Result<Registration, RegistrationError>)
    ensures
        match existing {
            Some(t) => match json_parse(t@) {
                Some(v) => registration_outcome(v, r),
                None => (r matches Ok(Registration::Write(text)) && is_minimal_text(text@)),
            },
            None => (r matches Ok(Registration::Write(text)) && is_minimal_text(text@)),
        },
{
    let parsed = match existing {
        Some(text) => parse_json(text),
        None => None,
    };
    match parsed {
        Some(v) => plan_registration(v),
        None => {
            let mut fresh = empty_object();
            insert_string(&mut fresh, SCHEMA_KEY, CONFIG_SCHEMA);
            proof {
                reveal_strlit("plugin");
                reveal_strlit("$schema");
                assert(PLUGIN_KEY@ == "plugin"@);
                assert(SCHEMA_KEY@ == "$schema"@);
                assert(PLUGIN_KEY@.len() != SCHEMA_KEY@.len());
                assert(json_member(fresh, PLUGIN_KEY@) is None);
                assert(member_items(fresh, PLUGIN_KEY@) =~= seq![]);
            }
            let r = plan_registration(fresh);
            let ghost outcome = r;
            proof {
                if let Ok(Registration::Write(text)) = outcome {
                    let updated = choose|u: serde_json::Value|
                        registered_value(fresh, u) && text@ == #[trigger] json_pretty(u) + "\n"@;
                    assert(seq![].push(Some(PLUGIN_ENTRY@)) =~= seq![Some(PLUGIN_ENTRY@)]);
                    assert(json_member(updated, SCHEMA_KEY@) == json_member(fresh, SCHEMA_KEY@));
                    assert forall|k: Seq<char>|
                        k != SCHEMA_KEY@ && k != PLUGIN_KEY@ implies #[trigger] json_member(
                        updated,
                        k,
                    ) is None by {
                        assert(json_member(updated, k) == json_member(fresh, k));
                    }
                    assert(is_minimal_config(updated));
                }
            }
            r
        },
    }
}

/// Registering is idempotent: a configuration that registration has written
/// registers the plugin, so registering again writes nothing.
pub proof fn law_registration_is_idempotent(config: serde_json::Value, updated: serde_json::Value)
    requires
        registered_value(config, updated),
    ensures
        is_registered(updated),
{
    let items = member_items(updated, PLUGIN_KEY@);
    assert(items[items.len() - 1] == Some(PLUGIN_ENTRY@));
}

/// A configuration whose `plugin` array lists the entry, at any position and
/// among any other items, is left alone: registration writes nothing. One
/// whose array does not list it gets it written, so the entry is never listed
/// twice.
pub proof fn law_listed_entry_is_left_alone(
    config: serde_json::Value,
    r: Result<Registration, RegistrationError>,
)
    requires
        registration_outcome(config, r),
        json_is_object(config),
        array_under(config, PLUGIN_KEY@) is Some,
    ensures
        (exists|i: int|
            0 <= i < array_under(config, PLUGIN_KEY@).unwrap().len() && #[trigger] json_str(
                array_under(config, PLUGIN_KEY@).unwrap()[i],
            ) == Some(PLUGIN_ENTRY@)) <==> r matches Ok(Registration::AlreadyRegistered),
        !(exists|i: int|
            0 <= i < array_under(config, PLUGIN_KEY@).unwrap().len() && #[trigger] json_str(
                array_under(config, PLUGIN_KEY@).unwrap()[i],
            ) == Some(PLUGIN_ENTRY@)) ==> r matches Ok(Registration::Write(_)),
{
    let vals = array_under(config, PLUGIN_KEY@).unwrap();
    let items = member_items(config, PLUGIN_KEY@);
    assert(member_values(config, PLUGIN_KEY@) == vals);
    assert(member_shape(config, PLUGIN_KEY@) == MemberShape::Array);
    assert(items.len() == vals.len());
    if exists|i: int| 0 <= i < vals.len() && #[trigger] json_str(vals[i]) == Some(PLUGIN_ENTRY@) {
        let i = choose|i: int| 0 <= i < vals.len() && #[trigger] json_str(vals[i]) == Some(PLUGIN_ENTRY@);
        assert(items[i] == json_str(vals[i]));
        assert(items.contains(Some(PLUGIN_ENTRY@)));
    } else {
        assert(!items.contains(Some(PLUGIN_ENTRY@))) by {
            if items.contains(Some(PLUGIN_ENTRY@)) {
                let j = choose|j: int| 0 <= j < items.len() && items[j] == Some(PLUGIN_ENTRY@);
                assert(items[j] == json_str(vals[j]));
            }
        }
    }
}

/// Registering keeps every other member of the configuration as it was.
pub proof fn law_registration_keeps_other_members(
    config: serde_json::Value,
    updated: serde_json::Value,
    key: Seq<char>,
)
    requires
        registered_value(config, updated),
        key != PLUGIN_KEY@,
    ensures
        json_member(updated, key) == json_member(config, key),
{
}

/// No text comes strictly before itself.
proof fn lemma_lex_irreflexive(a: Seq<char>)
    ensures
        !lex_less(a, a),
    decreases a.len(),
{
    if a.len() > 0 {
        lemma_lex_irreflexive(a.drop_first());
    }
}

/// Two texts are never each strictly before the other.
proof fn lemma_lex_asymmetric(a: Seq<char>, b: Seq<char>)
    requires
        lex_less(a, b),
    ensures
        !lex_less(b, a),
    decreases a.len(),
{
    if a.len() > 0 && b.len() > 0 && a[0] == b[0] {
        lemma_lex_asymmetric(a.drop_first(), b.drop_first());
    }
}

/// An installed plugin of this version, or of a later one, is kept: the
/// installer never rewrites the current plugin and never downgrades one.
pub proof fn law_current_or_newer_plugin_is_kept(content: Seq<char>)
    requires
        first_version(lines_of(content)) is Some,
        first_version(lines_of(content))->0 == PLUGIN_VERSION@ || lex_less(
            PLUGIN_VERSION@,
            first_version(lines_of(content))->0,
        ),
    ensures
        install_decision(Some(content)) == InstallDecision::KeepInstalled,
{
    let v = first_version(lines_of(content))->0;
    if v == PLUGIN_VERSION@ {
        lemma_lex_irreflexive(v);
    } else {
        lemma_lex_asymmetric(PLUGIN_VERSION@, v);
    }
}

/// A text without newlines is one unfinished line.
proof fn lemma_line_fold_no_newline(p: Seq<char>)
    requires
        !p.contains('\n'),
    ensures
        line_fold(p) == (Seq::<Seq<char>>::empty(), p),
    decreases p.len(),
{
    if p.len() > 0 {
        assert(!p.drop_last().contains('\n')) by {
            if p.drop_last().contains('\n') {
                let i = choose|i: int| 0 <= i < p.drop_last().len() && p.drop_last()[i] == '\n';
                assert(p[i] == '\n');
            }
        }
        lemma_line_fold_no_newline(p.drop_last());
        assert(p.last() != '\n') by {
            assert(p[p.len() - 1] == p.last());
        }
        assert(p.drop_last().push(p.last()) =~= p);
    }
}

/// After a complete line, the lines of what follows are added to those before.
proof fn lemma_line_fold_concat(x: Seq<char>, y: Seq<char>)
    requires
        line_fold(x).1 == Seq::<char>::empty(),
    ensures
        line_fold(x + y) == (line_fold(x).0 + line_fold(y).0, line_fold(y).1),
    decreases y.len(),
{
    if y.len() == 0 {
        assert(x + y =~= x);
        assert(line_fold(x).0 + Seq::<Seq<char>>::empty() =~= line_fold(x).0);
    } else {
        lemma_line_fold_concat(x, y.drop_last());
        assert((x + y).drop_last() =~= x + y.drop_last());
        assert((x + y).last() == y.last());
        let (d, c) = line_fold(y.drop_last());
        assert((line_fold(x).0 + d).push(strip_cr(c)) =~= line_fold(x).0 + d.push(strip_cr(c)));
    }
}

/// A plugin whose first line is the version marker followed by a version (with
/// no surrounding whitespace and no line break) declares that version,
/// whatever follows the line.
pub proof fn law_version_marker_reads_back(v: Seq<char>, body: Seq<char>)
    requires
        trim(v) == v,
        !v.contains('\n'),
        !v.contains('\r'),
    ensures
        first_version(lines_of(VERSION_MARKER@ + v + seq!['\n'] + body)) == Some(v),
{
    reveal_strlit("// Version: ");
    let marker = VERSION_MARKER@;
    assert(marker == "// Version: "@);
    assert(marker.len() == 12);
    let p = marker + v;
    assert(!p.contains('\n')) by {
        if p.contains('\n') {
            let i = choose|i: int| 0 <= i < p.len() && p[i] == '\n';
            if i < 12 {
                assert(p[i] == marker[i]);
            } else {
                assert(p[i] == v[i - 12]);
            }
        }
    }
    lemma_line_fold_no_newline(p);
    let x = p + seq!['\n'];
    assert(x.drop_last() =~= p);
    assert(strip_cr(p) == p) by {
        if v.len() > 0 {
            assert(p.last() == v[v.len() - 1]);
        } else {
            assert(p.last() == marker[11]);
        }
    }
    assert(line_fold(x) == (seq![p], Seq::<char>::empty()));
    lemma_line_fold_concat(x, body);
    assert(x + body =~= VERSION_MARKER@ + v + seq!['\n'] + body);
    let lines = lines_of(x + body);
    let (d, c) = line_fold(body);
    assert(lines =~= seq![p] + (if c.len() > 0 {
        d.push(c)
    } else {
        d
    }));
    assert(lines[0] == p);
    assert(marker.is_prefix_of(p)) by {
        assert(p.subrange(0, 12) =~= marker);
    }
    assert(p.skip(12) =~= v);
}

} // verus!
