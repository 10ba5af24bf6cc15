//! The decisions of one invocation: which palette and frontend, how the
//! palette lists and picks, and what is done with the frontend's reply.
use vstd::prelude::*;

use crate::config::{find_id, Config, Frontend, Palette};
use crate::json::{
    json_parse, json_text, lemma_view_kind, member_str, parse_json, to_json_text, with_member, Json, JsonV,
};
use crate::text::{join_path, path_join, starts_with, str_eq, strip_prefix, trim, trimmed};

verus! {

/// Why an invocation cannot go on.
#[derive(Debug)]
pub enum ResolveError {
    PaletteNotFound(String),
    FrontendNotFound(String),
    /// The frontend names no plugin.
    FrontendWithoutBase,
}

/// How a palette is run through its frontend.
#[derive(PartialEq, Eq, Structural, Clone, Copy, Debug)]
pub enum RunMode {
    /// Through the display cache.
    Cached,
    /// Live query in fzf: the list reloads as the user types.
    LiveFzf,
    /// Live query in rofi's script mode, which also picks.
    LiveRofi,
    /// Ask for the query first, then list and select.
    QueryFirst,
    /// List, then select.
    Plain,
}

/// What an invocation runs.
#[derive(Debug)]
pub struct RunPlan {
    pub palette_id: String,
    pub frontend_id: String,
    pub mode: RunMode,
    /// The prompt of a query-driven palette.
    pub message: String,
}

pub open spec fn opt_str(o: Option<&str>) -> Option<Seq<char>> {
    match o {
        Some(s) => Some(s@),
        None => None,
    }
}

/// The mode a palette runs in through a frontend whose plugin is at `base`.
pub open spec fn mode_for(p: Palette, base: Option<Seq<char>>) -> Option<RunMode> {
    if p.cache && base == Some("builtin/frontends/rofi"@) {
        Some(RunMode::Cached)
    } else if base is None {
        None
    } else if p.input {
        if base == Some("builtin/frontends/fzf"@) {
            Some(RunMode::LiveFzf)
        } else if base == Some("builtin/frontends/rofi"@) {
            Some(RunMode::LiveRofi)
        } else {
            Some(RunMode::QueryFirst)
        }
    } else {
        Some(RunMode::Plain)
    }
}

/// Decides what `run [frontend] [palette]` does: the named (or default)
/// palette and frontend, and the mode.
pub fn plan_run(cfg: &Config, frontend_arg: Option<&str>, palette_arg: Option<&str>) -> (r: Result<RunPlan, ResolveError>)
    ensures
        ({
            let pid = match opt_str(palette_arg) {
                Some(s) => s,
                None => cfg.general.default_palette@,
            };
            let fid = match opt_str(frontend_arg) {
                Some(s) => s,
                None => cfg.general.default_frontend@,
            };
            match find_id(cfg.palette@, pid) {
                None => r matches Err(ResolveError::PaletteNotFound(n)) && n@ == pid,
                Some(pi) => match find_id(cfg.frontend@, fid) {
                    None => r matches Err(ResolveError::FrontendNotFound(n)) && n@ == fid,
                    Some(fi) => {
                        let p = cfg.palette@[pi].1;
                        let base = match cfg.frontend@[fi].1.base {
                            Some(b) => Some(b@),
                            None => None,
                        };
                        match mode_for(p, base) {
                            None => r matches Err(ResolveError::FrontendWithoutBase),
                            Some(m) => r matches Ok(plan) && plan.palette_id@ == pid && plan.frontend_id@ == fid
                                && plan.mode == m && plan.message@ == match p.input_prompt {
                                Some(s) => s@,
                                None => pid,
                            },
                        }
                    },
                },
            }
        }),
{
    let pid = match palette_arg {
        Some(s) => String::from_str(s),
        None => cfg.general.default_palette.clone(),
    };
    let fid = match frontend_arg {
        Some(s) => String::from_str(s),
        None => cfg.general.default_frontend.clone(),
    };
    let p = match cfg.palette_named(pid.as_str()) {
        Some(p) => p,
        None => return Err(ResolveError::PaletteNotFound(pid)),
    };
    let f = match cfg.frontend_named(fid.as_str()) {
        Some(f) => f,
        None => return Err(ResolveError::FrontendNotFound(fid)),
    };
    let mode = match mode_of(p, f) {
        Some(m) => m,
        None => return Err(ResolveError::FrontendWithoutBase),
    };
    let message = match &p.input_prompt {
        Some(s) => s.clone(),
        None => pid.clone(),
    };
    Ok(RunPlan { palette_id: pid, frontend_id: fid, mode, message })
}

/// The mode a palette runs in through a frontend.
pub fn mode_of(p: &Palette, f: &Frontend) -> (r: Option<RunMode>)
    ensures
        r == mode_for(
            *p,
            match f.base {
                Some(b) => Some(b@),
                None => None,
            },
        ),
{
    let base = match &f.base {
        Some(b) => b.as_str(),
        None => return None,
    };
    let rofi = str_eq(base, "builtin/frontends/rofi");
    if p.cache && rofi {
        Some(RunMode::Cached)
    } else if p.input {
        if str_eq(base, "builtin/frontends/fzf") {
            Some(RunMode::LiveFzf)
        } else if rofi {
            Some(RunMode::LiveRofi)
        } else {
            Some(RunMode::QueryFirst)
        }
    } else {
        Some(RunMode::Plain)
    }
}

/// The frontend's reply as a selection: none when it is blank.
pub fn selection_of(reply: &str) -> (r: Option<String>)
    ensures
        match r {
            Some(s) => trimmed(reply@).len() > 0 && s@ == reply@,
            None => trimmed(reply@).len() == 0,
        },
{
    if trim(reply).unicode_len() == 0 {
        None
    } else {
        Some(String::from_str(reply))
    }
}

/// Whether a palette has a plugin behind it: it names one, and does not both
/// list from data and pick through an action.
pub open spec fn has_plugin(p: Palette) -> bool {
    !(p.auto_list && p.auto_pick) && p.base is Some
}

/// Where a palette's items come from.
#[derive(Debug)]
pub enum ListSource {
    /// The data file at this location.
    Data(String),
    /// The plugin's `list` operation.
    Plugin,
    /// Nowhere: the list is empty.
    Empty,
}

/// Where a palette's items come from.
pub fn list_source(p: &Palette) -> (r: ListSource)
    ensures
        if p.auto_list {
            match p.data {
                Some(d) => r matches ListSource::Data(x) && x@ == d@,
                None => r is Empty,
            }
        } else if has_plugin(*p) {
            r is Plugin
        } else {
            r is Empty
        },
{
    if p.auto_list {
        match &p.data {
            Some(d) => ListSource::Data(d.clone()),
            None => ListSource::Empty,
        }
    } else if !(p.auto_list && p.auto_pick) && p.base.is_some() {
        ListSource::Plugin
    } else {
        ListSource::Empty
    }
}

/// Where a pick of a palette goes.
#[derive(Debug)]
pub enum PickRoute {
    /// To the named action, with the value of the item's `action_key` member.
    Action { name: String, value: String },
    /// To the plugin's `pick` operation.
    Plugin,
    /// Nowhere.
    Nothing,
    /// The palette picks through an action but does not say which, or by
    /// which key.
    ActionUnset,
}

/// Where a pick of `selected` in palette `p` goes.
pub fn pick_route(p: &Palette, selected: &str) -> (r: PickRoute)
    ensures
        if p.auto_pick {
            match (p.default_action, p.action_key) {
                (Some(a), Some(k)) => r matches PickRoute::Action { name, value } && name@ == a@
                    && value@ == match json_parse(selected@) {
                    Some(v) => match member_str(v, k@) {
                        Some(s) => s,
                        None => Seq::<char>::empty(),
                    },
                    None => Seq::<char>::empty(),
                },
                _ => r is ActionUnset,
            }
        } else if has_plugin(*p) {
            r is Plugin
        } else {
            r is Nothing
        },
{
    if p.auto_pick {
        match (&p.default_action, &p.action_key) {
            (Some(a), Some(k)) => {
                let value = match parse_json(selected) {
                    Some(v) => match v.get_str(k.as_str()) {
                        Some(s) => String::from_str(s),
                        None => String::new(),
                    },
                    None => String::new(),
                };
                PickRoute::Action { name: a.clone(), value }
            },
            _ => PickRoute::ActionUnset,
        }
    } else if !(p.auto_list && p.auto_pick) && p.base.is_some() {
        PickRoute::Plugin
    } else {
        PickRoute::Nothing
    }
}

/// What rofi's script mode asks of a query-driven palette.
#[derive(Debug)]
pub enum RofiStep {
    /// First call: show the prompt and no entries.
    Start,
    /// The user typed this query: list for it.
    Query(String),
    /// The user chose the entry whose raw item is this.
    Pick(String),
    /// Nothing to do.
    Idle,
}

/// Reads rofi's script-mode state (`ROFI_RETV`), the typed text and the
/// chosen entry's info.
pub fn rofi_step(retv: &str, selected: Option<&str>, info: Option<&str>) -> (r: RofiStep)
    ensures
        if retv@ == ""@ || retv@ == "0"@ {
            r is Start
        } else if retv@ == "2"@ {
            match selected {
                Some(q) => if q@.len() > 0 {
                    r matches RofiStep::Query(x) && x@ == q@
                } else {
                    r is Idle
                },
                None => r is Idle,
            }
        } else if retv@ == "1"@ {
            match info {
                Some(i) => r matches RofiStep::Pick(x) && x@ == i@,
                None => r is Idle,
            }
        } else {
            r is Idle
        },
{
    if str_eq(retv, "") || str_eq(retv, "0") {
        RofiStep::Start
    } else if str_eq(retv, "2") {
        match selected {
            Some(q) => if q.unicode_len() > 0 {
                RofiStep::Query(String::from_str(q))
            } else {
                RofiStep::Idle
            },
            None => RofiStep::Idle,
        }
    } else if str_eq(retv, "1") {
        match info {
            Some(i) => RofiStep::Pick(String::from_str(i)),
            None => RofiStep::Idle,
        }
    } else {
        RofiStep::Idle
    }
}

/// The header rofi's script mode reads: the prompt with markup on, and for
/// a query's results, filtering by rofi turned off.
pub fn rofi_header(message: &str, results: bool) -> (r: String)
    ensures
        r@ == "\0prompt\x1f"@ + message@ + "> \x1fmarkup-rows\x1ftrue"@ + if results {
            "\x1fkeep-filter\x1ffalse"@
        } else {
            Seq::<char>::empty()
        },
{
    let h = String::from_str("\0prompt\x1f").concat(message).concat("> \x1fmarkup-rows\x1ftrue");
    if results {
        h.concat("\x1fkeep-filter\x1ffalse")
    } else {
        h
    }
}

/// The frontend that asks an item's prompts: the one named explicitly, else
/// the one the environment names, else the configured default.
pub fn prompt_frontend(explicit: Option<&str>, env: Option<&str>, default: &str) -> (r: String)
    ensures
        r@ == match explicit {
            Some(e) => e@,
            None => match env {
                Some(v) => v@,
                None => default@,
            },
        },
{
    match explicit {
        Some(e) => String::from_str(e),
        None => match env {
            Some(v) => String::from_str(v),
            None => String::from_str(default),
        },
    }
}

/// How the live list is formatted for a frontend kind.
#[derive(PartialEq, Eq, Structural, Clone, Copy, Debug)]
pub enum ListFormat {
    Fzf,
    Rofi,
    Raw,
}

pub fn list_format(frontend: &str) -> (r: ListFormat)
    ensures
        r == if frontend@ == "fzf"@ {
            ListFormat::Fzf
        } else if frontend@ == "rofi"@ {
            ListFormat::Rofi
        } else {
            ListFormat::Raw
        },
{
    if str_eq(frontend, "fzf") {
        ListFormat::Fzf
    } else if str_eq(frontend, "rofi") {
        ListFormat::Rofi
    } else {
        ListFormat::Raw
    }
}

/// The directory of a locally installed action.
pub fn action_dir(name: &str, config_dir: Option<&str>) -> (r: String)
    ensures
        r@ == path_join(
            match config_dir {
                Some(d) => path_join(d@, "pal"@),
                None => Seq::<char>::empty(),
            },
            "plugins/actions/"@ + name@,
        ),
{
    let base = match config_dir {
        Some(d) => join_path(d, "pal"),
        None => String::new(),
    };
    let rel = String::from_str("plugins/actions/").concat(name);
    join_path(base.as_str(), rel.as_str())
}

/// Where an action's plugin is: its local directory when that holds a
/// manifest, else the published one.
pub fn action_location(name: &str, local_dir: &str, has_manifest: bool) -> (r: String)
    ensures
        r@ == if has_manifest {
            local_dir@
        } else {
            "github:zcag/pal/plugins/actions/"@ + name@
        },
{
    if has_manifest {
        String::from_str(local_dir)
    } else {
        String::from_str("github:zcag/pal/plugins/actions/").concat(name)
    }
}

/// `p` with its leading `~/` replaced by the home directory.
pub open spec fn home_expanded(p: Seq<char>, home: Option<Seq<char>>) -> Option<Seq<char>> {
    if p.len() >= 2 && p.subrange(0, 2) == "~/"@ {
        match home {
            Some(h) => Some(path_join(h, p.subrange(2, p.len() as int))),
            None => None,
        }
    } else {
        None
    }
}

/// Where a path in the configuration points: a fetched remote plugin, a
/// path under home, an absolute path, or one relative to the configuration's
/// directory (itself relative to `cwd` when not absolute).
pub open spec fn expanded_path(
    path: Seq<char>,
    remote: Option<Seq<char>>,
    home: Option<Seq<char>>,
    config_dir: Option<Seq<char>>,
    cwd: Seq<char>,
) -> Seq<char> {
    let github = path.len() >= 7 && path.subrange(0, 7) == "github:"@;
    if github && remote is Some {
        remote->Some_0
    } else if home_expanded(path, home) is Some {
        home_expanded(path, home)->Some_0
    } else if path.len() > 0 && path[0] == '/' {
        path
    } else {
        match config_dir {
            Some(cd) => {
                let base = if cd.len() >= 2 && cd.subrange(0, 2) == "~/"@ {
                    match home_expanded(cd, home) {
                        Some(e) => e,
                        None => cd,
                    }
                } else if cd.len() > 0 && cd[0] == '/' {
                    cd
                } else {
                    path_join(cwd, cd)
                };
                path_join(base, path)
            },
            None => path,
        }
    }
}

fn expand_home_dir(p: &str, home: Option<&str>) -> (r: Option<String>)
    ensures
        match r {
            Some(s) => home_expanded(p@, opt_str(home)) == Some(s@),
            None => home_expanded(p@, opt_str(home)) is None,
        },
{
    proof { reveal_strlit("~/"); }
    match strip_prefix(p, "~/") {
        Some(rest) => match home {
            Some(h) => Some(join_path(h, rest)),
            None => None,
        },
        None => None,
    }
}

/// Resolves a path from the configuration (see [`expanded_path`]); `remote`
/// is the local directory of a fetched remote plugin.
pub fn expand_path(
    path: &str,
    remote: Option<&str>,
    home: Option<&str>,
    config_dir: Option<&str>,
    cwd: &str,
) -> (r: String)
    ensures
        r@ == expanded_path(path@, opt_str(remote), opt_str(home), opt_str(config_dir), cwd@),
{
    proof { reveal_strlit("github:"); reveal_strlit("~/"); }
    if starts_with(path, "github:") {
        if let Some(d) = remote {
            return String::from_str(d);
        }
    }
    if let Some(e) = expand_home_dir(path, home) {
        return e;
    }
    if path.unicode_len() > 0 && path.get_char(0) == '/' {
        return String::from_str(path);
    }
    match config_dir {
        Some(cd) => {
            let base = if starts_with(cd, "~/") {
                match expand_home_dir(cd, home) {
                    Some(e) => e,
                    None => String::from_str(cd),
                }
            } else if cd.unicode_len() > 0 && cd.get_char(0) == '/' {
                String::from_str(cd)
            } else {
                join_path(cwd, cd)
            };
            join_path(base.as_str(), path)
        },
        None => String::from_str(path),
    }
}

/// The prompts given to `pal prompt`: a JSON array of prompt objects, or one
/// prompt object; nothing when the text is blank or not such JSON.
pub open spec fn prompt_values(input: Seq<char>) -> Seq<JsonV> {
    let t = trimmed(input);
    if t.len() == 0 {
        Seq::empty()
    } else if t[0] == '[' {
        match json_parse(t) {
            Some(JsonV::Arr(vs)) => vs,
            _ => Seq::empty(),
        }
    } else {
        match json_parse(t) {
            Some(v) => seq![v],
            None => Seq::empty(),
        }
    }
}

/// Reads the prompts given to `pal prompt`.
pub fn prompt_input(input: &str) -> (r: Vec<Json>)
    ensures
        r@.map_values(|j: Json| j@) == prompt_values(input@),
{
    let t = trim(input);
    let mut out: Vec<Json> = Vec::new();
    if t.unicode_len() == 0 {
        assert(out@.map_values(|j: Json| j@) =~= Seq::<JsonV>::empty());
        return out;
    }
    if t.get_char(0) == '[' {
        match parse_json(t) {
            Some(j) => {
                proof { lemma_view_kind(j); }
                match j {
                    Json::Arr(vs) => {
                        assert(vs@.map_values(|j: Json| j@) =~= Json::Arr(vs)@->Arr_0);
                        vs
                    },
                    _ => {
                        assert(out@.map_values(|j: Json| j@) =~= Seq::<JsonV>::empty());
                        out
                    },
                }
            },
            None => {
                assert(out@.map_values(|j: Json| j@) =~= Seq::<JsonV>::empty());
                out
            },
        }
    } else {
        match parse_json(t) {
            Some(j) => {
                let ghost jv = j@;
                out.push(j);
                assert(out@.map_values(|j: Json| j@) =~= seq![jv]);
                out
            },
            None => {
                assert(out@.map_values(|j: Json| j@) =~= Seq::<JsonV>::empty());
                out
            },
        }
    }
}

/// The answers collected into one object, a later answer to a key replacing
/// an earlier one.
pub open spec fn answers_object(answers: Seq<(Seq<char>, Seq<char>)>) -> JsonV
    decreases answers.len(),
{
    if answers.len() == 0 {
        JsonV::Obj(Seq::empty())
    } else {
        with_member(answers_object(answers.drop_last()), answers.last().0, JsonV::Str(answers.last().1))
    }
}

/// What `pal prompt` prints: a single answer as it is, else the answers as
/// one JSON object.
pub fn prompt_output(answers: &Vec<(String, String)>) -> (r: String)
    ensures
        r@ == if answers@.len() == 1 {
            answers@[0].1@
        } else {
            json_text(answers_object(answers@.map_values(|p: (String, String)| (p.0@, p.1@))))
        },
{
    if answers.len() == 1 {
        return answers[0].1.clone();
    }
    let ghost av = answers@.map_values(|p: (String, String)| (p.0@, p.1@));
    let mut obj = Json::empty_object();
    let mut i: usize = 0;
    while i < answers.len()
        invariant
            i <= answers.len(),
            av == answers@.map_values(|p: (String, String)| (p.0@, p.1@)),
            obj@ == answers_object(av.subrange(0, i as int)),
        decreases answers.len() - i,
    {
        assert(av.subrange(0, i + 1).drop_last() =~= av.subrange(0, i as int));
        obj = obj.with_member(answers[i].0.as_str(), Json::string(answers[i].1.as_str()));
        i = i + 1;
    }
    assert(av.subrange(0, answers.len() as int) =~= av);
    to_json_text(&obj)
}

} // verus!
