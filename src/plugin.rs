//! Plugins: how a location resolves to a manifest, how the manifest and the
//! caller's configuration merge, and how an operation is invoked.
use vstd::prelude::*;

use crate::config::{Frontend, Palette};
use crate::json::{
    find_key, json_text, jview, lemma_find_key, lemma_member_with, lemma_obj_view, member,
    to_json_text, wf_fields, with_member, Json, JsonV,
};
use crate::text::{
    join_path, path_join, split_char, split_on, starts_with, str_eq, strip_prefix, views,
};

verus! {

pub open spec fn push_opt(fs: Seq<(Seq<char>, JsonV)>, key: Seq<char>, o: Option<String>) -> Seq<(Seq<char>, JsonV)> {
    match o {
        Some(s) => fs.push((key, JsonV::Str(s@))),
        None => fs,
    }
}

pub open spec fn members_view(extra: Seq<(String, Json)>) -> Seq<(Seq<char>, JsonV)> {
    extra.map_values(|f: (String, Json)| (f.0@, f.1@))
}

/// The members a palette's configuration hands to its plugin: the fields that
/// are set, then the other keys.
pub open spec fn palette_members(p: Palette) -> Seq<(Seq<char>, JsonV)> {
    let f0 = push_opt(Seq::empty(), "base"@, p.base);
    let f1 = f0.push(("cache"@, JsonV::Bool(p.cache))).push(("auto_list"@, JsonV::Bool(p.auto_list))).push(
        ("auto_pick"@, JsonV::Bool(p.auto_pick)),
    );
    let f2 = push_opt(push_opt(push_opt(f1, "data"@, p.data), "default_action"@, p.default_action), "action_key"@, p.action_key);
    let f3 = push_opt(push_opt(push_opt(f2, "icon"@, p.icon), "icon_xdg"@, p.icon_xdg), "icon_utf"@, p.icon_utf);
    let f4 = push_opt(f3.push(("input"@, JsonV::Bool(p.input))), "input_prompt"@, p.input_prompt);
    f4 + members_view(p.extra@)
}

/// The members a frontend's configuration hands to its plugin.
pub open spec fn frontend_members(f: Frontend) -> Seq<(Seq<char>, JsonV)> {
    push_opt(Seq::empty(), "base"@, f.base) + members_view(f.extra@)
}

/// `base` with the caller's non-null members set on it, in order.
pub open spec fn overlay(base: JsonV, fields: Seq<(Seq<char>, JsonV)>) -> JsonV
    decreases fields.len(),
{
    if fields.len() == 0 {
        base
    } else {
        let rest = overlay(base, fields.drop_last());
        if fields.last().1 is Null {
            rest
        } else {
            with_member(rest, fields.last().0, fields.last().1)
        }
    }
}

/// A plugin's effective configuration: its manifest, with the caller's
/// non-null members taking precedence.
pub open spec fn merged_config(manifest: JsonV, caller: JsonV) -> JsonV {
    let base = match manifest {
        JsonV::Obj(_) => manifest,
        _ => JsonV::Obj(Seq::empty()),
    };
    match caller {
        JsonV::Obj(cf) => overlay(base, cf),
        _ => base,
    }
}

fn push_opt_member(fs: &mut Vec<(String, Json)>, key: &str, o: &Option<String>)
    ensures
        members_view(final(fs)@) == push_opt(members_view(old(fs)@), key@, *o),
{
    match o {
        Some(s) => {
            let ghost before = fs@;
            fs.push((String::from_str(key), Json::Str(s.clone())));
            assert(members_view(fs@) =~= members_view(before).push((key@, JsonV::Str(s@))));
        },
        None => {},
    }
}

fn push_bool_member(fs: &mut Vec<(String, Json)>, key: &str, b: bool)
    ensures
        members_view(final(fs)@) == members_view(old(fs)@).push((key@, JsonV::Bool(b))),
{
    let ghost before = fs@;
    fs.push((String::from_str(key), Json::Bool(b)));
    assert(members_view(fs@) =~= members_view(before).push((key@, JsonV::Bool(b))));
}

fn push_copies(fs: &mut Vec<(String, Json)>, extra: &Vec<(String, Json)>)
    ensures
        members_view(final(fs)@) == members_view(old(fs)@) + members_view(extra@),
{
    let ghost before = fs@;
    let mut i: usize = 0;
    while i < extra.len()
        invariant
            i <= extra.len(),
            members_view(fs@) == members_view(before) + members_view(extra@.subrange(0, i as int)),
        decreases extra.len() - i,
    {
        let v = extra[i].1.deep_clone();
        let ghost mid = fs@;
        fs.push((extra[i].0.clone(), v));
        assert(members_view(fs@) =~= members_view(mid).push((extra@[i as int].0@, extra@[i as int].1@)));
        assert(members_view(extra@.subrange(0, i + 1)) =~= members_view(extra@.subrange(0, i as int)).push(
            (extra@[i as int].0@, extra@[i as int].1@),
        ));
        i = i + 1;
    }
    assert(extra@.subrange(0, extra.len() as int) =~= extra@);
}

fn object_of(fs: Vec<(String, Json)>) -> (r: Json)
    ensures
        r@ == JsonV::Obj(members_view(fs@)),
{
    proof { lemma_obj_view(fs); }
    let r = Json::Obj(fs);
    assert(r@->Obj_0 =~= members_view(fs@));
    r
}

impl Palette {
    /// The configuration handed to the palette's plugin.
    pub fn to_json(&self) -> (r: Json)
        ensures
            r@ == JsonV::Obj(palette_members(*self)),
    {
        let mut fs: Vec<(String, Json)> = Vec::new();
        proof {
            assert(members_view(fs@) =~= Seq::<(Seq<char>, JsonV)>::empty());
        }
        push_opt_member(&mut fs, "base", &self.base);
        push_bool_member(&mut fs, "cache", self.cache);
        push_bool_member(&mut fs, "auto_list", self.auto_list);
        push_bool_member(&mut fs, "auto_pick", self.auto_pick);
        push_opt_member(&mut fs, "data", &self.data);
        push_opt_member(&mut fs, "default_action", &self.default_action);
        push_opt_member(&mut fs, "action_key", &self.action_key);
        push_opt_member(&mut fs, "icon", &self.icon);
        push_opt_member(&mut fs, "icon_xdg", &self.icon_xdg);
        push_opt_member(&mut fs, "icon_utf", &self.icon_utf);
        push_bool_member(&mut fs, "input", self.input);
        push_opt_member(&mut fs, "input_prompt", &self.input_prompt);
        push_copies(&mut fs, &self.extra);
        object_of(fs)
    }
}

impl Frontend {
    /// The configuration handed to the frontend's plugin.
    pub fn to_json(&self) -> (r: Json)
        ensures
            r@ == JsonV::Obj(frontend_members(*self)),
    {
        let mut fs: Vec<(String, Json)> = Vec::new();
        proof {
            assert(members_view(fs@) =~= Seq::<(Seq<char>, JsonV)>::empty());
        }
        push_opt_member(&mut fs, "base", &self.base);
        push_copies(&mut fs, &self.extra);
        object_of(fs)
    }
}

/// Merges a plugin's manifest with the caller's configuration: the caller's
/// members that are not null replace the manifest's.
pub fn merge_configs(manifest: Json, caller: Json) -> (r: Json)
    ensures
        r@ == merged_config(manifest@, caller@),
{
    proof { lemma_view_is_obj(manifest); }
    let mut out = match manifest {
        Json::Obj(fs) => Json::Obj(fs),
        _ => Json::empty_object(),
    };
    proof { lemma_view_is_obj(caller); }
    match caller {
        Json::Obj(mut cf) => {
            proof { lemma_obj_view(cf); }
            let ghost all = jview(Json::Obj(cf))->Obj_0;
            let ghost base = out@;
            let ghost n = cf.len();
            let mut i: usize = 0;
            while cf.len() > 0
                invariant
                    all.len() == n,
                    i + cf.len() == n,
                    forall|k: int| 0 <= k < cf.len() ==> (#[trigger] cf@[k]).0@ == all[i + k].0 && cf@[k].1@ == all[i + k].1,
                    out@ == overlay(base, all.subrange(0, i as int)),
                decreases cf.len(),
            {
                let (k, v) = cf.remove(0);
                assert(all.subrange(0, i + 1).drop_last() =~= all.subrange(0, i as int));
                match v {
                    Json::Null => {},
                    v => {
                        out = out.with_member(k.as_str(), v);
                    },
                }
                i = i + 1;
            }
            assert(all.subrange(0, n as int) =~= all);
            out
        },
        _ => out,
    }
}

proof fn lemma_view_is_obj(j: Json)
    ensures
        (j is Obj) == (j@ is Obj),
        (j is Null) == (j@ is Null),
{
}

proof fn lemma_overlay(base: JsonV, fields: Seq<(Seq<char>, JsonV)>, k: Seq<char>)
    requires
        base is Obj,
        wf_fields(fields),
    ensures
        overlay(base, fields) is Obj,
        member(overlay(base, fields), k) == match find_key(fields, k) {
            Some(i) => if fields[i].1 is Null {
                member(base, k)
            } else {
                Some(fields[i].1)
            },
            None => member(base, k),
        },
    decreases fields.len(),
{
    if fields.len() > 0 {
        let pre = fields.drop_last();
        assert(wf_fields(pre)) by {
            assert forall|i: int, j: int| 0 <= i < pre.len() && 0 <= j < pre.len() && i != j implies #[trigger] pre[i].0
                != #[trigger] pre[j].0 by {
                assert(pre[i] == fields[i] && pre[j] == fields[j]);
            }
        }
        lemma_overlay(base, pre, k);
        lemma_find_key(pre, k);
        let last = fields.last();
        if !(last.1 is Null) {
            lemma_member_with(overlay(base, pre), last.0, last.1, k);
        }
        if k == last.0 {
            assert forall|i: int| 0 <= i < pre.len() implies #[trigger] pre[i].0 != k by {
                assert(fields[i].0 != fields[fields.len() - 1].0);
            }
            lemma_find_key(pre, k);
        }
    }
}

/// Caller members that are set and not null override the manifest's; a
/// member the caller leaves out or sets to null keeps the manifest's value.
pub proof fn lemma_caller_overrides_manifest(manifest: JsonV, caller: JsonV, k: Seq<char>)
    requires
        manifest is Obj,
        caller matches JsonV::Obj(cf) && wf_fields(cf),
    ensures
        member(merged_config(manifest, caller), k) == match member(caller, k) {
            Some(v) => if v is Null {
                member(manifest, k)
            } else {
                Some(v)
            },
            None => member(manifest, k),
        },
{
    lemma_overlay(manifest, caller->Obj_0, k);
}

/// The command a manifest declares: the first entry of its `command` array.
pub open spec fn manifest_command(m: JsonV) -> Option<Seq<char>> {
    match member(m, "command"@) {
        Some(JsonV::Arr(a)) => if a.len() > 0 {
            match a[0] {
                JsonV::Str(s) => Some(s),
                _ => None,
            }
        } else {
            None
        },
        _ => None,
    }
}

/// Where a plugin's manifest is read from.
#[derive(Debug)]
pub enum ManifestSource {
    /// The compiled-in table, at this `/`-separated path.
    Builtin(String),
    /// The `plugin.toml` file at this path.
    File(String),
}

pub open spec fn is_builtin_location(base: Seq<char>) -> bool {
    base.len() >= 8 && base.subrange(0, 8) == "builtin/"@
}

/// Where the manifest of the plugin at `base` is read from.
pub fn manifest_source(base: &str) -> (r: ManifestSource)
    ensures
        match r {
            ManifestSource::Builtin(rest) => is_builtin_location(base@) && rest@ == base@.subrange(8, base@.len() as int),
            ManifestSource::File(p) => !is_builtin_location(base@) && p@ == path_join(base@, "plugin.toml"@),
        },
{
    proof { reveal_strlit("builtin/"); }
    match strip_prefix(base, "builtin/") {
        Some(rest) => ManifestSource::Builtin(String::from_str(rest)),
        None => ManifestSource::File(join_path(base, "plugin.toml")),
    }
}

/// The table found by following `parts` from `v`; an empty table where a
/// part is missing.
pub open spec fn descend(v: JsonV, parts: Seq<Seq<char>>) -> JsonV
    decreases parts.len(),
{
    if parts.len() == 0 {
        v
    } else {
        let next = match member(v, parts[0]) {
            Some(m) => m,
            None => JsonV::Obj(Seq::empty()),
        };
        descend(next, parts.drop_first())
    }
}

/// The manifest of a built-in plugin: the entry at `rest` (as
/// `palettes/pals`) of the compiled-in table.
pub fn builtin_manifest(table: Json, rest: &str) -> (r: Json)
    ensures
        r@ == descend(table@, split_on(rest@, '/')),
{
    let parts = split_char(rest, '/');
    let ghost ps = views(parts@);
    let mut cur = table;
    let mut i: usize = 0;
    assert(ps.subrange(0, ps.len() as int) =~= ps);
    while i < parts.len()
        invariant
            ps == views(parts@),
            i <= parts.len(),
            descend(table@, ps) == descend(cur@, ps.subrange(i as int, ps.len() as int)),
        decreases parts.len() - i,
    {
        assert(ps.subrange(i as int, ps.len() as int).drop_first() =~= ps.subrange(i + 1, ps.len() as int));
        cur = match cur.into_member(parts[i].as_str()) {
            Some(m) => m,
            None => Json::empty_object(),
        };
        i = i + 1;
    }
    cur
}

/// A plugin resolved for use: where it runs and its effective configuration.
#[derive(Debug)]
pub struct Plugin {
    pub base: String,
    /// The executable, for a plugin that is not built in.
    pub executable: Option<String>,
    pub config: Json,
}

/// Why a plugin cannot be used.
#[derive(PartialEq, Eq, Structural, Clone, Copy, Debug)]
pub enum PluginError {
    /// Its manifest declares no `command`.
    MissingCommand,
}

/// How one operation of a plugin is carried out.
#[derive(Debug)]
pub enum Invocation {
    /// Run `program` with `args`, writing `stdin` to it.
    External { program: String, args: Vec<String>, stdin: String },
    /// Call the built-in handler at `path` with the operation and its input.
    Builtin { path: String, op: String, input: Option<String> },
}

impl Plugin {
    /// Resolves the plugin at `base`: its configuration is the merge of its
    /// manifest and the caller's; a plugin that is not built in runs the
    /// manifest's command, relative to its directory.
    pub fn new(base: &str, manifest: Json, caller: Json) -> (r: Result<Plugin, PluginError>)
        ensures
            match r {
                Ok(p) => {
                    &&& p.base@ == base@
                    &&& p.config@ == merged_config(manifest@, caller@)
                    &&& if is_builtin_location(base@) {
                        p.executable is None
                    } else {
                        manifest_command(manifest@) matches Some(c) && p.executable matches Some(e) && e@
                            == path_join(base@, c)
                    }
                },
                Err(e) => !is_builtin_location(base@) && manifest_command(manifest@) is None
                    && e == PluginError::MissingCommand,
            },
    {
        proof { reveal_strlit("builtin/"); reveal_strlit("command"); }
        let exec_path = if starts_with(base, "builtin/") {
            None
        } else {
            let cmd = match manifest.get("command") {
                Some(Json::Arr(a)) => {
                    proof { lemma_view_is_obj(a@[0]); }
                    if a.len() > 0 {
                        match &a[0] {
                            Json::Str(s) => Some(s.as_str()),
                            _ => None,
                        }
                    } else {
                        None
                    }
                },
                _ => None,
            };
            match cmd {
                Some(c) => Some(join_path(base, c)),
                None => return Err(PluginError::MissingCommand),
            }
        };
        let config = merge_configs(manifest, caller);
        Ok(Plugin { base: String::from_str(base), executable: exec_path, config })
    }

    /// How to carry out `op`: an external plugin gets the operation as its
    /// argument and, on standard input, the given input or else its
    /// configuration as JSON.
    pub fn invocation(&self, op: &str, input: Option<&str>) -> (r: Invocation)
        ensures
            match self.executable {
                Some(e) => r matches Invocation::External { program, args, stdin } && program@
                    == e@ && views(args@) == seq![op@] && stdin@ == match input {
                    Some(i) => i@,
                    None => json_text(self.config@),
                },
                None => r matches Invocation::Builtin { path, op: o, input: inp } && o@ == op@
                    && (if is_builtin_location(self.base@) {
                    path@ == self.base@.subrange(8, self.base@.len() as int)
                } else {
                    path@ == self.base@
                }) && match (inp, input) {
                    (Some(a), Some(b)) => a@ == b@,
                    (None, None) => true,
                    _ => false,
                },
            },
    {
        proof { reveal_strlit("builtin/"); }
        match &self.executable {
            Some(e) => {
                let stdin = match input {
                    Some(i) => String::from_str(i),
                    None => to_json_text(&self.config),
                };
                let mut args: Vec<String> = Vec::new();
                args.push(String::from_str(op));
                assert(views(args@) =~= seq![op@]);
                Invocation::External { program: e.clone(), args, stdin }
            },
            None => {
                let path = match strip_prefix(self.base.as_str(), "builtin/") {
                    Some(rest) => String::from_str(rest),
                    None => self.base.clone(),
                };
                let inp = match input {
                    Some(i) => Some(String::from_str(i)),
                    None => None,
                };
                Invocation::Builtin { path, op: String::from_str(op), input: inp }
            },
        }
    }
}

/// The built-in plugins.
#[derive(PartialEq, Eq, Structural, Clone, Copy, Debug)]
pub enum Builtin {
    Apps,
    Bookmarks,
    Pals,
    Psg,
    Ssh,
    Combine,
    Fzf,
    Rofi,
    Stdin,
}

/// The built-in plugins by path, as `palettes/apps`.
pub open spec fn builtin_table() -> Seq<(Seq<char>, Builtin)> {
    seq![
        ("palettes/apps"@, Builtin::Apps),
        ("palettes/bookmarks"@, Builtin::Bookmarks),
        ("palettes/pals"@, Builtin::Pals),
        ("palettes/psg"@, Builtin::Psg),
        ("palettes/ssh"@, Builtin::Ssh),
        ("palettes/combine"@, Builtin::Combine),
        ("frontends/fzf"@, Builtin::Fzf),
        ("frontends/rofi"@, Builtin::Rofi),
        ("frontends/stdin"@, Builtin::Stdin),
    ]
}

/// The built-in plugin at `path` (with or without `builtin/` in front).
pub fn builtin_for(path: &str) -> (r: Option<Builtin>)
    ensures
        ({
            let p = if is_builtin_location(path@) {
                path@.subrange(8, path@.len() as int)
            } else {
                path@
            };
            match r {
                Some(b) => exists|i: int| 0 <= i < builtin_table().len() && #[trigger] builtin_table()[i] == (p, b),
                None => forall|i: int| 0 <= i < builtin_table().len() ==> #[trigger] builtin_table()[i].0 != p,
            }
        }),
{
    proof { reveal_strlit("builtin/"); }
    let p = match strip_prefix(path, "builtin/") {
        Some(rest) => rest,
        None => path,
    };
    let names = [
        "palettes/apps",
        "palettes/bookmarks",
        "palettes/pals",
        "palettes/psg",
        "palettes/ssh",
        "palettes/combine",
        "frontends/fzf",
        "frontends/rofi",
        "frontends/stdin",
    ];
    let kinds = [
        Builtin::Apps,
        Builtin::Bookmarks,
        Builtin::Pals,
        Builtin::Psg,
        Builtin::Ssh,
        Builtin::Combine,
        Builtin::Fzf,
        Builtin::Rofi,
        Builtin::Stdin,
    ];
    let ghost table = builtin_table();
    assert(forall|i: int| 0 <= i < 9 ==> #[trigger] table[i] == (names@[i]@, kinds@[i]));
    let mut i: usize = 0;
    while i < 9
        invariant
            i <= 9,
            table == builtin_table(),
            p@ == if is_builtin_location(path@) {
                path@.subrange(8, path@.len() as int)
            } else {
                path@
            },
            names@.len() == 9,
            kinds@.len() == 9,
            forall|k: int| 0 <= k < 9 ==> #[trigger] table[k] == (names@[k]@, kinds@[k]),
            forall|k: int| 0 <= k < i ==> #[trigger] table[k].0 != p@,
        decreases 9 - i,
    {
        if str_eq(names[i], p) {
            assert(table[i as int] == (p@, kinds@[i as int]));
            return Some(kinds[i]);
        }
        i = i + 1;
    }
    None
}

/// Whether a built-in plugin has the operation `op`.
pub fn builtin_has_op(b: Builtin, op: &str) -> (r: bool)
    ensures
        r == match b {
            Builtin::Fzf | Builtin::Rofi => op@ == "run"@ || op@ == "prompt"@ || op@ == "input_run"@,
            Builtin::Stdin => op@ == "run"@,
            _ => op@ == "list"@ || op@ == "pick"@,
        },
{
    match b {
        Builtin::Fzf | Builtin::Rofi => str_eq(op, "run") || str_eq(op, "prompt") || str_eq(op, "input_run"),
        Builtin::Stdin => str_eq(op, "run"),
        _ => str_eq(op, "list") || str_eq(op, "pick"),
    }
}

} // verus!
