//! The layered configuration: each source is a tree of tables, and later
//! layers take precedence over earlier ones key by key.
use vstd::prelude::*;

use crate::config::{builtin_palettes, frontend, is_plain_palette, palette, Config, General};
use crate::plugin::{members_view, palette_members};
use crate::json::{lemma_obj_view, lemma_view_kind, member, parse_toml, toml_parse, Json, JsonV};

verus! {

/// The value at a path of keys.
pub open spec fn lookup(t: JsonV, p: Seq<Seq<char>>) -> Option<JsonV>
    decreases p.len(),
{
    if p.len() == 0 {
        Some(t)
    } else {
        match member(t, p[0]) {
            Some(c) => lookup(c, p.drop_first()),
            None => None,
        }
    }
}

/// A value that is neither an array nor a table.
pub open spec fn is_scalar(v: JsonV) -> bool {
    !(v is Arr) && !(v is Obj)
}

/// A value that a later layer replaces whole: a scalar, or an array of
/// scalars.
pub open spec fn is_leaf(v: JsonV) -> bool {
    is_scalar(v) || (v matches JsonV::Arr(a) && forall|i: int| 0 <= i < a.len() ==> is_scalar(#[trigger] a[i]))
}

/// Whether the prefix of `p` of length `k` holds, in `u`, a value that
/// replaces what lies at `p`: the value at `p` itself, or a non-table above it.
pub open spec fn sets_at(u: JsonV, p: Seq<Seq<char>>, k: int) -> bool {
    &&& 1 <= k <= p.len()
    &&& lookup(u, p.subrange(0, k)) matches Some(x) && (k == p.len() || !(x is Obj))
}

/// Whether a layer sets the value at `p` or replaces a table above it.
pub open spec fn sets_path(u: JsonV, p: Seq<Seq<char>>) -> bool {
    exists|k: int| #[trigger] sets_at(u, p, k)
}

/// Layer `i` holds a leaf at `p`, and no layer after it, up to `k`, sets `p`.
pub open spec fn wins(layers: Seq<JsonV>, i: int, k: int, p: Seq<Seq<char>>) -> bool {
    &&& 0 <= i < k <= layers.len()
    &&& p.len() >= 1
    &&& lookup(layers[i], p) matches Some(s) && is_leaf(s)
    &&& forall|j: int| i < j < k ==> !sets_path(#[trigger] layers[j], p)
}

/// The merge of the first `k` layers: each leaf holds the value of the last
/// layer that sets it.
pub open spec fn reflects(m: JsonV, layers: Seq<JsonV>, k: int) -> bool {
    forall|i: int, p: Seq<Seq<char>>| #[trigger] wins(layers, i, k, p) ==> lookup(m, p) == lookup(layers[i], p)
}

/// Relies on figment: `Figment::merge` of two `Serialized::defaults`
/// providers, then `extract` as a `serde_json::Value`. Tables merge key by
/// key and any other value of the later provider, an array too, replaces
/// the earlier one; scalars come back as they went in. Merging is total, and
/// a value built from JSON (string keys, 64-bit or float numbers) always
/// extracts back into a `serde_json::Value`.
#[verifier::external_body]
fn figment_merge(lower: &Json, upper: &Json) -> (r: Option<Json>)
    requires
        lower@ is Obj,
        upper@ is Obj,
    ensures
        r is Some,
        r matches Some(m) ==> m@ is Obj,
        r matches Some(m) ==> forall|p: Seq<Seq<char>>|
            p.len() >= 1 && (lookup(upper@, p) matches Some(s) && is_leaf(s)) ==> #[trigger] lookup(m@, p)
                == lookup(upper@, p),
        r matches Some(m) ==> forall|p: Seq<Seq<char>>|
            p.len() >= 1 && (lookup(lower@, p) matches Some(s) && is_leaf(s)) && !sets_path(upper@, p)
                ==> #[trigger] lookup(m@, p) == lookup(lower@, p),
{
    figment::Figment::from(figment::providers::Serialized::defaults(crate::json::to_serde(lower)))
        .merge(figment::providers::Serialized::defaults(crate::json::to_serde(upper)))
        .extract::<serde_json::Value>()
        .ok()
        .map(crate::json::from_serde)
}

pub open spec fn layer_views(layers: Seq<Json>) -> Seq<JsonV> {
    layers.map_values(|j: Json| j@)
}

/// Merges layers in order, each taking precedence over those before it.
pub fn merge_layers(layers: &Vec<Json>) -> (r: Json)
    requires
        forall|i: int| 0 <= i < layers@.len() ==> (#[trigger] layers@[i])@ is Obj,
    ensures
        r@ is Obj,
        reflects(r@, layer_views(layers@), layers@.len() as int),
{
    let ghost lv = layer_views(layers@);
    let mut acc = Json::empty_object();
    let mut k: usize = 0;
    while k < layers.len()
        invariant
            k <= layers.len(),
            lv == layer_views(layers@),
            lv.len() == layers.len(),
            forall|i: int| 0 <= i < layers@.len() ==> (#[trigger] layers@[i])@ is Obj,
            acc@ is Obj,
            reflects(acc@, lv, k as int),
        decreases layers.len() - k,
    {
        let ghost before = acc@;
        let next = figment_merge(&acc, &layers[k]).unwrap();
        assert(reflects(next@, lv, k + 1)) by {
            assert forall|i: int, p: Seq<Seq<char>>| #[trigger] wins(lv, i, k + 1, p) implies lookup(next@, p) == lookup(lv[i], p) by {
                assert(lv[k as int] == layers@[k as int]@);
                if i < k {
                    assert(wins(lv, i, k as int, p));
                    assert(!sets_path(lv[k as int], p));
                    assert(lookup(next@, p) == lookup(before, p));
                } else {
                    assert(lookup(next@, p) == lookup(lv[k as int], p));
                }
            }
        }
        acc = next;
        k = k + 1;
    }
    acc
}

/// Once the layers are merged, a leaf that a later layer sets (and no
/// layer after it touches) is what the merge holds, whatever earlier layers
/// set there: a project file over the packaged defaults, an explicit file
/// over the project file, and so on.
pub proof fn lemma_later_layer_wins(m: JsonV, layers: Seq<JsonV>, earlier: int, later: int, p: Seq<Seq<char>>)
    requires
        reflects(m, layers, layers.len() as int),
        0 <= earlier < later < layers.len(),
        p.len() >= 1,
        lookup(layers[earlier], p) is Some,
        lookup(layers[later], p) matches Some(s) && is_leaf(s),
        forall|j: int| later < j < layers.len() ==> !sets_path(#[trigger] layers[j], p),
    ensures
        lookup(m, p) == lookup(layers[later], p),
{
    assert(wins(layers, later, layers.len() as int, p));
}

/// Why the configuration cannot be loaded.
#[derive(Debug)]
pub enum ConfigError {
    /// The file at this position of the list is not a TOML document.
    Parse(usize),
    /// The environment's layer is not a table.
    Environment,
    /// The setting at this key of the merged tree has the wrong type.
    Invalid(String),
}

/// The layers read from the files that exist, in order.
pub open spec fn file_layers(files: Seq<Option<String>>) -> Option<Seq<JsonV>>
    decreases files.len(),
{
    if files.len() == 0 {
        Some(Seq::empty())
    } else {
        match (file_layers(files.drop_last()), files.last()) {
            (Some(rest), None) => Some(rest),
            (Some(rest), Some(t)) => match toml_parse(t@) {
                Some(JsonV::Obj(f)) => Some(rest.push(JsonV::Obj(f))),
                _ => None,
            },
            _ => None,
        }
    }
}

/// The first file that is there but does not read as a TOML table.
pub open spec fn first_bad_file(files: Seq<Option<String>>) -> Option<int>
    decreases files.len(),
{
    if files.len() == 0 {
        None
    } else {
        match first_bad_file(files.drop_last()) {
            Some(i) => Some(i),
            None => match files.last() {
                Some(t) => match toml_parse(t@) {
                    Some(JsonV::Obj(_)) => None,
                    _ => Some(files.len() - 1),
                },
                None => None,
            },
        }
    }
}

/// The table that sets `general.log_level`.
pub open spec fn log_level_tree(level: Seq<char>) -> JsonV {
    JsonV::Obj(seq![("general"@, JsonV::Obj(seq![("log_level"@, JsonV::Str(level))]))])
}

fn log_level_layer(level: &str) -> (r: Json)
    ensures
        r@ == log_level_tree(level@),
{
    let mut inner: Vec<(String, Json)> = Vec::new();
    inner.push((String::from_str("log_level"), Json::string(level)));
    proof { lemma_obj_view(inner); }
    let inner = Json::Obj(inner);
    assert(inner@->Obj_0 =~= seq![("log_level"@, JsonV::Str(level@))]);
    let mut outer: Vec<(String, Json)> = Vec::new();
    outer.push((String::from_str("general"), inner));
    proof { lemma_obj_view(outer); }
    let r = Json::Obj(outer);
    assert(r@->Obj_0 =~= log_level_tree(level@)->Obj_0);
    r
}

/// The members of a palette that only names its plugin.
pub open spec fn plain_palette_members(base: Seq<char>) -> Seq<(Seq<char>, JsonV)> {
    seq![
        ("base"@, JsonV::Str(base)),
        ("cache"@, JsonV::Bool(false)),
        ("auto_list"@, JsonV::Bool(false)),
        ("auto_pick"@, JsonV::Bool(false)),
        ("input"@, JsonV::Bool(false)),
    ]
}

/// The compiled-in configuration as a tree.
pub open spec fn base_tree() -> JsonV {
    let palettes = builtin_palettes().map_values(
        |e: (Seq<char>, Seq<char>)| (e.0, JsonV::Obj(plain_palette_members(e.1))),
    );
    JsonV::Obj(
        seq![
            ("general"@, JsonV::Obj(seq![("default_palette"@, JsonV::Str("combine"@)), ("default_frontend"@, JsonV::Str("fzf"@))])),
            ("palette"@, JsonV::Obj(palettes)),
            ("frontend"@, JsonV::Obj(Seq::empty())),
        ],
    )
}

/// The compiled-in configuration as the first layer.
pub fn base_layer() -> (r: Json)
    ensures
        r@ == base_tree(),
{
    let cfg = Config::base();
    let mut general: Vec<(String, Json)> = Vec::new();
    general.push((String::from_str("default_palette"), Json::Str(cfg.general.default_palette)));
    general.push((String::from_str("default_frontend"), Json::Str(cfg.general.default_frontend)));
    proof { lemma_obj_view(general); }
    let general = Json::Obj(general);
    assert(general@ == base_tree()->Obj_0[0].1) by {
        assert(general@->Obj_0 =~= base_tree()->Obj_0[0].1->Obj_0);
    }
    let ghost table = builtin_palettes();
    let mut palettes: Vec<(String, Json)> = Vec::new();
    let mut i: usize = 0;
    while i < cfg.palette.len()
        invariant
            i <= cfg.palette.len(),
            table == builtin_palettes(),
            cfg.palette@.len() == table.len(),
            forall|k: int|
                0 <= k < cfg.palette@.len() ==> #[trigger] cfg.palette@[k].0@ == table[k].0
                    && is_plain_palette(cfg.palette@[k].1, table[k].1),
            palettes@.len() == i,
            forall|k: int| 0 <= k < i ==> (#[trigger] palettes@[k]).0@ == table[k].0
                && palettes@[k].1@ == JsonV::Obj(plain_palette_members(table[k].1)),
        decreases cfg.palette.len() - i,
    {
        let j = cfg.palette[i].1.to_json();
        proof {
            assert(cfg.palette@[i as int].0@ == table[i as int].0);
            let p = cfg.palette@[i as int].1;
            assert(members_view(p.extra@) =~= Seq::<(Seq<char>, JsonV)>::empty());
            assert(palette_members(p) =~= plain_palette_members(table[i as int].1));
        }
        palettes.push((cfg.palette[i].0.clone(), j));
        i = i + 1;
    }
    proof { lemma_obj_view(palettes); }
    let palettes = Json::Obj(palettes);
    assert(palettes@ == base_tree()->Obj_0[1].1) by {
        assert(palettes@->Obj_0 =~= base_tree()->Obj_0[1].1->Obj_0);
    }
    let frontends = Json::empty_object();
    let mut top: Vec<(String, Json)> = Vec::new();
    top.push((String::from_str("general"), general));
    top.push((String::from_str("palette"), palettes));
    top.push((String::from_str("frontend"), frontends));
    proof { lemma_obj_view(top); }
    let r = Json::Obj(top);
    assert(r@->Obj_0 =~= base_tree()->Obj_0);
    r
}

/// Loads the configuration tree: the base layer, then each file that exists
/// (packaged defaults, user, project, explicit), then the environment's
/// layer (JSON text), then the log level; later layers take precedence.
pub fn load_layers(base: Json, files: &Vec<Option<String>>, env: Option<&str>, log_level: Option<&str>) -> (r: Result<Json, ConfigError>)
    requires
        base@ is Obj,
    ensures
        match first_bad_file(files@) {
            Some(i) => r matches Err(ConfigError::Parse(j)) && j == i,
            None => {
                &&& (r is Err) == (env matches Some(e) && (crate::json::json_parse(e@) matches Some(v) && !(v is Obj)))
                &&& !(r matches Err(ConfigError::Parse(_)))
                &&& r matches Ok(m) ==> {
                let env_layers = match env {
                    Some(e) => match crate::json::json_parse(e@) {
                        Some(v) => seq![v],
                        None => Seq::<JsonV>::empty(),
                    },
                    None => Seq::<JsonV>::empty(),
                };
                let log_layers = match log_level {
                    Some(l) => seq![log_level_tree(l@)],
                    None => Seq::<JsonV>::empty(),
                };
                let all = seq![base@] + file_layers(files@)->Some_0 + env_layers + log_layers;
                m@ is Obj && reflects(m@, all, all.len() as int)
                }
            },
        },
{
    let ghost b = base@;
    let mut layers: Vec<Json> = Vec::new();
    layers.push(base);
    let mut i: usize = 0;
    assert(files@.subrange(0, 0) =~= Seq::<Option<String>>::empty());
    while i < files.len()
        invariant
            i <= files.len(),
            first_bad_file(files@.subrange(0, i as int)) is None,
            file_layers(files@.subrange(0, i as int)) is Some,
            layer_views(layers@) == seq![b] + file_layers(files@.subrange(0, i as int))->Some_0,
            forall|k: int| 0 <= k < layers@.len() ==> (#[trigger] layers@[k])@ is Obj,
        decreases files.len() - i,
    {
        let ghost pre = files@.subrange(0, i as int);
        assert(files@.subrange(0, i + 1).drop_last() =~= pre);
        match &files[i] {
            Some(text) => {
                match parse_toml(text.as_str()) {
                    Some(t) => {
                        proof { lemma_view_kind(t); }
                        match t {
                            Json::Obj(_) => {
                                let ghost before = layers@;
                                layers.push(t);
                                assert(layer_views(layers@) =~= layer_views(before).push(layers@[layers@.len() - 1]@));
                            },
                            _ => {
                                proof { lemma_bad_prefix(files@, i as int); }
                                return Err(ConfigError::Parse(i));
                            },
                        }
                    },
                    None => {
                        proof { lemma_bad_prefix(files@, i as int); }
                        return Err(ConfigError::Parse(i));
                    },
                }
            },
            None => {},
        }
        i = i + 1;
    }
    assert(files@.subrange(0, files.len() as int) =~= files@);
    match env {
        Some(e) => match crate::json::parse_json(e) {
            Some(v) => {
                proof { lemma_view_kind(v); }
                match v {
                    Json::Obj(_) => {
                        let ghost before = layers@;
                        layers.push(v);
                        assert(layer_views(layers@) =~= layer_views(before).push(layers@[layers@.len() - 1]@));
                    },
                    _ => return Err(ConfigError::Environment),
                }
            },
            None => {},
        },
        None => {},
    }
    match log_level {
        Some(l) => {
            let ghost before = layers@;
            layers.push(log_level_layer(l));
            assert(layer_views(layers@) =~= layer_views(before).push(log_level_tree(l@)));
        },
        None => {},
    }
    proof {
        let env_layers = match env {
            Some(e) => match crate::json::json_parse(e@) {
                Some(v) => seq![v],
                None => Seq::<JsonV>::empty(),
            },
            None => Seq::<JsonV>::empty(),
        };
        let log_layers = match log_level {
            Some(l) => seq![log_level_tree(l@)],
            None => Seq::<JsonV>::empty(),
        };
        assert(layer_views(layers@) =~= seq![b] + file_layers(files@)->Some_0 + env_layers + log_layers);
    }
    Ok(merge_layers(&layers))
}

/// A text setting of the `general` table: its default when unset, `None`
/// when it is not text.
pub open spec fn general_text(tree: JsonV, key: Seq<char>, default: Seq<char>) -> Option<Seq<char>> {
    match member(tree, "general"@) {
        None => Some(default),
        Some(JsonV::Obj(fields)) => match member(JsonV::Obj(fields), key) {
            None => Some(default),
            Some(JsonV::Str(s)) => Some(s),
            Some(_) => None,
        },
        Some(_) => None,
    }
}

fn text_setting(tree: &Json, key: &str, default: String) -> (r: Result<String, ConfigError>)
    ensures
        match general_text(tree@, key@, default@) {
            Some(s) => r matches Ok(v) && v@ == s,
            None => r is Err,
        },
{
    match tree.get("general") {
        None => Ok(default),
        Some(g) => {
            proof { lemma_view_kind(*g); }
            match g {
                Json::Obj(_) => match g.get(key) {
                    None => Ok(default),
                    Some(v) => {
                        proof { lemma_view_kind(*v); }
                        match v {
                            Json::Str(s) => Ok(s.clone()),
                            _ => Err(ConfigError::Invalid(String::from_str("general.").concat(key))),
                        }
                    },
                },
                _ => Err(ConfigError::Invalid(String::from_str("general"))),
            }
        },
    }
}

/// The `general` table of a merged configuration tree, with its defaults.
pub fn general_of(tree: &Json) -> (r: Result<General, ConfigError>)
    ensures
        match (
            general_text(tree@, "default_palette"@, "combine"@),
            general_text(tree@, "default_frontend"@, "fzf"@),
        ) {
            (Some(p), Some(f)) => r matches Ok(g) && g.default_palette@ == p && g.default_frontend@ == f,
            _ => r is Err,
        },
{
    let p = text_setting(tree, "default_palette", palette());
    let f = text_setting(tree, "default_frontend", frontend());
    match (p, f) {
        (Ok(default_palette), Ok(default_frontend)) => Ok(General { default_palette, default_frontend }),
        (Err(e), _) => Err(e),
        (_, Err(e)) => Err(e),
    }
}

/// The frontend a merged tree names in `general.default_frontend` is the one
/// the last layer setting it gives, whatever earlier layers (the packaged
/// defaults, say) set there.
pub proof fn lemma_default_frontend_from_last_layer(m: JsonV, layers: Seq<JsonV>, later: int, name: Seq<char>)
    requires
        reflects(m, layers, layers.len() as int),
        0 <= later < layers.len(),
        lookup(layers[later], seq!["general"@, "default_frontend"@]) == Some(JsonV::Str(name)),
        forall|j: int| later < j < layers.len() ==> !sets_path(#[trigger] layers[j], seq!["general"@, "default_frontend"@]),
    ensures
        general_text(m, "default_frontend"@, "fzf"@) == Some(name),
{
    let p = seq!["general"@, "default_frontend"@];
    assert(wins(layers, later, layers.len() as int, p));
    assert(lookup(m, p) == Some(JsonV::Str(name)));
    let q = seq!["default_frontend"@];
    assert(p.drop_first() =~= q);
    assert(q.drop_first() =~= Seq::<Seq<char>>::empty());
    let g = member(m, "general"@)->Some_0;
    assert(member(m, "general"@) is Some);
    assert(lookup(g, q) == Some(JsonV::Str(name)));
    assert(q[0] == "default_frontend"@);
    assert(q.len() == 1);
    if let Some(x) = member(g, q[0]) {
        assert(lookup(x, q.drop_first()) == Some(x));
    }
    assert(member(g, "default_frontend"@) == Some(JsonV::Str(name)));
    assert(g is Obj);
}

proof fn lemma_bad_prefix(files: Seq<Option<String>>, i: int)
    requires
        0 <= i < files.len(),
        first_bad_file(files.subrange(0, i)) is None,
        files[i] matches Some(t) && !(toml_parse(t@) matches Some(JsonV::Obj(_))),
    ensures
        first_bad_file(files) == Some(i),
    decreases files.len(),
{
    if i < files.len() - 1 {
        assert(files.drop_last().subrange(0, i) =~= files.subrange(0, i));
        lemma_bad_prefix(files.drop_last(), i);
    } else {
        assert(files.drop_last() =~= files.subrange(0, i));
    }
}

} // verus!
