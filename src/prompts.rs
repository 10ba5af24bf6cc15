//! Prompt chains: the questions an item asks before it is picked, and how
//! the answers are put into it.
use vstd::prelude::*;

use crate::json::{
    json_parse, json_text, jview, lemma_obj_view, lemma_view_kind, member, member_str,
    parse_json, to_json_text, with_member, without_member, Json, JsonV,
};
use crate::text::{join, join_with, replace, replaced, trim, trimmed, views};

verus! {

/// What a prompt asks for.
#[derive(Debug)]
pub enum PromptKind {
    /// A line of text.
    Text,
    /// One of these options.
    Choice(Vec<String>),
}

/// One prompt of an item's `prompts` array.
#[derive(Debug)]
pub struct PromptSpec {
    pub key: String,
    pub message: String,
    pub kind: PromptKind,
}

pub open spec fn str_or(o: Option<Seq<char>>, d: Seq<char>) -> Seq<char> {
    match o {
        Some(s) => s,
        None => d,
    }
}

/// The strings among `vs`, in order.
pub open spec fn strings_of(vs: Seq<JsonV>) -> Seq<Seq<char>>
    decreases vs.len(),
{
    if vs.len() == 0 {
        Seq::empty()
    } else {
        let rest = strings_of(vs.drop_last());
        match vs.last() {
            JsonV::Str(s) => rest.push(s),
            _ => rest,
        }
    }
}

/// What a prompt object asks: key, message, and `None` for a text prompt or
/// the options of a choice; `None` overall for a choice without an options array.
pub open spec fn prompt_of(v: JsonV) -> Option<(Seq<char>, Seq<char>, Option<Seq<Seq<char>>>)> {
    let key = str_or(member_str(v, "key"@), Seq::empty());
    let message = str_or(member_str(v, "message"@), key);
    if str_or(member_str(v, "type"@), "text"@) == "choice"@ {
        match member(v, "options"@) {
            Some(JsonV::Arr(opts)) => Some((key, message, Some(strings_of(opts)))),
            _ => None,
        }
    } else {
        Some((key, message, None))
    }
}

impl PromptSpec {
    pub open spec fn parts(&self) -> (Seq<char>, Seq<char>, Option<Seq<Seq<char>>>) {
        (
            self.key@,
            self.message@,
            match self.kind {
                PromptKind::Text => None,
                PromptKind::Choice(o) => Some(views(o@)),
            },
        )
    }

    /// Reads a prompt object: `key` (default empty), `message` (default the
    /// key), `type` (default `text`), and for a choice its `options`.
    pub fn from_json(v: &Json) -> (r: Option<PromptSpec>)
        ensures
            match r {
                Some(p) => prompt_of(v@) == Some(p.parts()),
                None => prompt_of(v@) is None,
            },
    {
        proof { reveal_strlit("text"); reveal_strlit("choice"); }
        let key = match v.get_str("key") {
            Some(k) => String::from_str(k),
            None => String::new(),
        };
        let message = match v.get_str("message") {
            Some(m) => String::from_str(m),
            None => key.clone(),
        };
        let is_choice = match v.get_str("type") {
            Some(t) => crate::text::str_eq(t, "choice"),
            None => false,
        };
        assert("text"@.len() != "choice"@.len());
        assert(is_choice == (str_or(member_str(v@, "type"@), "text"@) == "choice"@));
        if is_choice {
            match v.get("options") {
                Some(Json::Arr(opts)) => {
                    let options = strings_in(opts);
                    Some(PromptSpec { key, message, kind: PromptKind::Choice(options) })
                },
                Some(other) => {
                    proof { lemma_view_kind(*other); }
                    None
                },
                None => None,
            }
        } else {
            Some(PromptSpec { key, message, kind: PromptKind::Text })
        }
    }
}

/// The strings among the values, in order.
pub fn strings_in(vs: &Vec<Json>) -> (r: Vec<String>)
    ensures
        views(r@) == strings_of(jview(Json::Arr(*vs))->Arr_0),
{
    let ghost av = jview(Json::Arr(*vs))->Arr_0;
    let mut out: Vec<String> = Vec::new();
    let mut i: usize = 0;
    while i < vs.len()
        invariant
            i <= vs.len(),
            av == jview(Json::Arr(*vs))->Arr_0,
            av.len() == vs.len(),
            forall|j: int| 0 <= j < vs.len() ==> #[trigger] av[j] == vs@[j]@,
            views(out@) == strings_of(av.subrange(0, i as int)),
        decreases vs.len() - i,
    {
        assert(av.subrange(0, i + 1).drop_last() =~= av.subrange(0, i as int));
        proof { lemma_view_kind(vs@[i as int]); }
        match &vs[i] {
            Json::Str(s) => {
                let c = s.clone();
                proof { crate::text::lemma_views_push(out@, c); }
                out.push(c);
            },
            _ => {},
        }
        i = i + 1;
    }
    assert(av.subrange(0, vs.len() as int) =~= av);
    out
}

/// What an item asks before it is picked.
#[derive(Debug)]
pub enum ItemPrompts {
    /// Nothing: the item is picked as it is.
    Nothing,
    /// These prompts, in order.
    Ask(Vec<PromptSpec>),
    /// The item or its prompts cannot be read; nothing is picked.
    Unreadable,
}

pub open spec fn prompt_list(vs: Seq<JsonV>) -> Option<Seq<(Seq<char>, Seq<char>, Option<Seq<Seq<char>>>)>>
    decreases vs.len(),
{
    if vs.len() == 0 {
        Some(Seq::empty())
    } else {
        match (prompt_list(vs.drop_last()), prompt_of(vs.last())) {
            (Some(rest), Some(p)) => Some(rest.push(p)),
            _ => None,
        }
    }
}

pub open spec fn parts_of(ps: Seq<PromptSpec>) -> Seq<(Seq<char>, Seq<char>, Option<Seq<Seq<char>>>)> {
    ps.map_values(|p: PromptSpec| p.parts())
}

/// Reads the prompts of a selected item.
pub fn item_prompts(selected: &str) -> (r: ItemPrompts)
    ensures
        match json_parse(selected@) {
            None => r is Unreadable,
            Some(v) => match member(v, "prompts"@) {
                None => r is Nothing,
                Some(JsonV::Arr(ps)) => if ps.len() == 0 {
                    r is Nothing
                } else {
                    match prompt_list(ps) {
                        Some(l) => r matches ItemPrompts::Ask(specs) && parts_of(specs@) == l,
                        None => r is Unreadable,
                    }
                },
                Some(_) => r is Unreadable,
            },
        },
{
    let item = match parse_json(selected) {
        Some(i) => i,
        None => return ItemPrompts::Unreadable,
    };
    let ps = match item.get("prompts") {
        None => return ItemPrompts::Nothing,
        Some(Json::Arr(ps)) => ps,
        Some(other) => {
            proof { lemma_view_kind(*other); }
            return ItemPrompts::Unreadable;
        },
    };
    if ps.len() == 0 {
        return ItemPrompts::Nothing;
    }
    let ghost av = jview(Json::Arr(*ps))->Arr_0;
    let mut specs: Vec<PromptSpec> = Vec::new();
    let mut i: usize = 0;
    assert(av.subrange(0, 0) =~= Seq::<JsonV>::empty());
    while i < ps.len()
        invariant
            i <= ps.len(),
            ps.len() > 0,
            json_parse(selected@) == Some(item@),
            member(item@, "prompts"@) == Some(JsonV::Arr(av)),
            av == jview(Json::Arr(*ps))->Arr_0,
            av.len() == ps.len(),
            forall|j: int| 0 <= j < ps.len() ==> #[trigger] av[j] == ps@[j]@,
            prompt_list(av.subrange(0, i as int)) == Some(parts_of(specs@)),
        decreases ps.len() - i,
    {
        assert(av.subrange(0, i + 1).drop_last() =~= av.subrange(0, i as int));
        match PromptSpec::from_json(&ps[i]) {
            Some(p) => {
                proof { assert(parts_of(specs@.push(p)) =~= parts_of(specs@).push(p.parts())); }
                specs.push(p);
            },
            None => {
                proof { lemma_prompt_list_none(av, i as int); }
                return ItemPrompts::Unreadable;
            },
        }
        i = i + 1;
    }
    assert(av.subrange(0, ps.len() as int) =~= av);
    ItemPrompts::Ask(specs)
}

proof fn lemma_prompt_list_none(vs: Seq<JsonV>, i: int)
    requires
        0 <= i < vs.len(),
        prompt_of(vs[i]) is None,
    ensures
        prompt_list(vs) is None,
    decreases vs.len(),
{
    if i < vs.len() - 1 {
        lemma_prompt_list_none(vs.drop_last(), i);
    }
}

/// The item list a choice prompt shows: one `{"id": o, "name": o}` per option.
pub open spec fn choice_lines(options: Seq<Seq<char>>) -> Seq<Seq<char>> {
    options.map_values(
        |o: Seq<char>| json_text(JsonV::Obj(seq![("id"@, JsonV::Str(o)), ("name"@, JsonV::Str(o))])),
    )
}

/// The item stream a choice prompt hands to the frontend.
pub fn choice_items(options: &Vec<String>) -> (r: String)
    ensures
        r@ == join_with(choice_lines(views(options@)), "\n"@),
{
    let mut out: Vec<String> = Vec::new();
    let mut i: usize = 0;
    while i < options.len()
        invariant
            i <= options.len(),
            views(out@) == choice_lines(views(options@).subrange(0, i as int)),
        decreases options.len() - i,
    {
        let mut fs: Vec<(String, Json)> = Vec::new();
        fs.push((String::from_str("id"), Json::string(options[i].as_str())));
        fs.push((String::from_str("name"), Json::string(options[i].as_str())));
        proof { lemma_obj_view(fs); }
        let obj = Json::Obj(fs);
        assert(obj@->Obj_0 =~= seq![("id"@, JsonV::Str(options@[i as int]@)), ("name"@, JsonV::Str(options@[i as int]@))]);
        let t = to_json_text(&obj);
        proof {
            crate::text::lemma_views_push(out@, t);
            assert(choice_lines(views(options@).subrange(0, i + 1)) =~= choice_lines(views(options@).subrange(0, i as int)).push(t@));
        }
        out.push(t);
        i = i + 1;
    }
    assert(views(options@).subrange(0, options.len() as int) =~= views(options@));
    join(&out, "\n")
}

/// The answer a frontend's reply gives to a prompt; `None` when the user
/// cancelled (an empty reply).
pub open spec fn answer_of(choice: bool, reply: Seq<char>) -> Option<Seq<char>> {
    if choice {
        if trimmed(reply).len() == 0 {
            None
        } else {
            match json_parse(reply) {
                Some(v) => match member_str(v, "id"@) {
                    Some(id) => Some(id),
                    None => Some(trimmed(reply)),
                },
                None => Some(trimmed(reply)),
            }
        }
    } else if reply.len() == 0 {
        None
    } else {
        Some(reply)
    }
}

/// The answer to `spec` that the frontend's `reply` gives, or `None` when
/// the user cancelled.
pub fn prompt_answer(spec: &PromptSpec, reply: &str) -> (r: Option<String>)
    ensures
        match r {
            Some(a) => answer_of(spec.kind is Choice, reply@) == Some(a@),
            None => answer_of(spec.kind is Choice, reply@) is None,
        },
{
    match &spec.kind {
        PromptKind::Text => {
            if reply.unicode_len() == 0 {
                None
            } else {
                Some(String::from_str(reply))
            }
        },
        PromptKind::Choice(_) => {
            let t = trim(reply);
            if t.unicode_len() == 0 {
                return None;
            }
            match parse_json(reply) {
                Some(v) => match v.get_str("id") {
                    Some(id) => Some(String::from_str(id)),
                    None => Some(String::from_str(t)),
                },
                None => Some(String::from_str(t)),
            }
        },
    }
}

/// The answers of a chain that has gone through every reply: `None` as soon
/// as one prompt is cancelled.
pub open spec fn chain_answers(
    prompts: Seq<(Seq<char>, Seq<char>, Option<Seq<Seq<char>>>)>,
    replies: Seq<Seq<char>>,
) -> Option<Seq<(Seq<char>, Seq<char>)>>
    decreases replies.len(),
{
    if replies.len() == 0 {
        Some(Seq::empty())
    } else {
        match chain_answers(prompts, replies.drop_last()) {
            Some(prev) => match answer_of(prompts[replies.len() - 1].2 is Some, replies.last()) {
                Some(a) => Some(prev.push((prompts[replies.len() - 1].0, a))),
                None => None,
            },
            None => None,
        }
    }
}

/// A prompt chain under way: the prompts and the answers given so far.
#[derive(Debug)]
pub struct PromptChain {
    pub prompts: Vec<PromptSpec>,
    pub answers: Vec<(String, String)>,
}

/// Where a chain goes after a reply.
#[derive(Debug)]
pub enum ChainStep {
    /// Ask the next prompt.
    Continue(PromptChain),
    /// Every prompt is answered.
    Done(Vec<(String, String)>),
    /// The user cancelled: every answer is dropped.
    Cancelled,
}

pub open spec fn answer_views(a: Seq<(String, String)>) -> Seq<(Seq<char>, Seq<char>)> {
    a.map_values(|p: (String, String)| (p.0@, p.1@))
}

impl PromptChain {
    /// A chain that has asked nothing yet.
    pub fn start(prompts: Vec<PromptSpec>) -> (r: PromptChain)
        ensures
            r.prompts@ == prompts@,
            r.answers@.len() == 0,
    {
        PromptChain { prompts, answers: Vec::new() }
    }

    /// The prompt to ask next.
    pub fn current(&self) -> (r: Option<&PromptSpec>)
        ensures
            match r {
                Some(p) => self.answers@.len() < self.prompts@.len() && *p == self.prompts@[self.answers@.len() as int],
                None => self.answers@.len() >= self.prompts@.len(),
            },
    {
        if self.answers.len() < self.prompts.len() {
            Some(&self.prompts[self.answers.len()])
        } else {
            None
        }
    }

    /// Takes the frontend's reply to the current prompt.
    pub fn reply(self, reply: &str) -> (r: ChainStep)
        requires
            self.answers@.len() < self.prompts@.len(),
        ensures
            ({
                let p = self.prompts@[self.answers@.len() as int];
                match answer_of(p.kind is Choice, reply@) {
                    None => r is Cancelled,
                    Some(a) => {
                        let answers = answer_views(self.answers@).push((p.key@, a));
                        if self.answers@.len() + 1 == self.prompts@.len() {
                            r matches ChainStep::Done(v) && answer_views(v@) == answers
                        } else {
                            r matches ChainStep::Continue(c) && c.prompts@ == self.prompts@
                                && answer_views(c.answers@) == answers
                        }
                    },
                }
            }),
    {
        let PromptChain { prompts, mut answers } = self;
        let i = answers.len();
        let a = match prompt_answer(&prompts[i], reply) {
            Some(a) => a,
            None => return ChainStep::Cancelled,
        };
        let ghost before = answers@;
        answers.push((prompts[i].key.clone(), a));
        assert(answer_views(answers@) =~= answer_views(before).push((prompts@[i as int].key@, a@)));
        if answers.len() == prompts.len() {
            ChainStep::Done(answers)
        } else {
            ChainStep::Continue(PromptChain { prompts, answers })
        }
    }
}

/// An answer as it is put into JSON text: `\` and `"` escaped.
pub open spec fn escaped(v: Seq<char>) -> Seq<char> {
    replaced(replaced(v, "\\"@, "\\\\"@), "\""@, "\\\""@)
}

/// The placeholder an answer replaces.
pub open spec fn placeholder(key: Seq<char>) -> Seq<char> {
    "{{"@ + key + "}}"@
}

/// The text with each answer put in place of its placeholder, in order.
pub open spec fn substituted(text: Seq<char>, answers: Seq<(Seq<char>, Seq<char>)>) -> Seq<char>
    decreases answers.len(),
{
    if answers.len() == 0 {
        text
    } else {
        let a = answers.last();
        replaced(substituted(text, answers.drop_last()), placeholder(a.0), escaped(a.1))
    }
}

/// The object with each answer whose key it lacks added as a string member.
pub open spec fn with_answers(v: JsonV, answers: Seq<(Seq<char>, Seq<char>)>) -> JsonV
    decreases answers.len(),
{
    if answers.len() == 0 {
        v
    } else {
        let prev = with_answers(v, answers.drop_last());
        let a = answers.last();
        if member(prev, a.0) is Some {
            prev
        } else {
            with_member(prev, a.0, JsonV::Str(a.1))
        }
    }
}

/// The picked item once every prompt is answered: without `prompts`, each
/// placeholder replaced in its text, each answer a member; `None` when that
/// text is no longer JSON.
pub open spec fn resolved_item(item: Seq<char>, answers: Seq<(Seq<char>, Seq<char>)>) -> Option<Seq<char>> {
    match json_parse(item) {
        Some(v) => {
            let text = substituted(json_text(without_member(v, "prompts"@)), answers);
            match json_parse(text) {
                Some(w) => Some(json_text(with_answers(w, answers))),
                None => None,
            }
        },
        None => None,
    }
}

/// An answer escaped for JSON text.
pub fn escape_answer(v: &str) -> (r: String)
    ensures
        r@ == escaped(v@),
{
    proof { reveal_strlit("\\"); reveal_strlit("\""); }
    let a = replace(v, "\\", "\\\\");
    replace(a.as_str(), "\"", "\\\"")
}

/// Puts the answers of a finished chain into the selected item.
pub fn apply_answers(selected: &str, answers: &Vec<(String, String)>) -> (r: Option<String>)
    ensures
        match r {
            Some(t) => resolved_item(selected@, answer_views(answers@)) == Some(t@),
            None => resolved_item(selected@, answer_views(answers@)) is None,
        },
{
    let item = match parse_json(selected) {
        Some(i) => i,
        None => return None,
    };
    let item = item.without_member("prompts");
    let mut text = to_json_text(&item);
    let ghost av = answer_views(answers@);
    let ghost base = text@;
    let mut i: usize = 0;
    while i < answers.len()
        invariant
            i <= answers.len(),
            av == answer_views(answers@),
            text@ == substituted(base, av.subrange(0, i as int)),
        decreases answers.len() - i,
    {
        assert(av.subrange(0, i + 1).drop_last() =~= av.subrange(0, i as int));
        let mut pat = String::from_str("{{");
        pat.append(answers[i].0.as_str());
        pat.append("}}");
        proof { reveal_strlit("{{"); reveal_strlit("}}"); }
        let esc = escape_answer(answers[i].1.as_str());
        text = replace(text.as_str(), pat.as_str(), esc.as_str());
        i = i + 1;
    }
    assert(av.subrange(0, answers.len() as int) =~= av);
    let mut obj = match parse_json(text.as_str()) {
        Some(o) => o,
        None => return None,
    };
    let ghost parsed = obj@;
    let mut k: usize = 0;
    while k < answers.len()
        invariant
            k <= answers.len(),
            av == answer_views(answers@),
            obj@ == with_answers(parsed, av.subrange(0, k as int)),
        decreases answers.len() - k,
    {
        assert(av.subrange(0, k + 1).drop_last() =~= av.subrange(0, k as int));
        if !obj.has(answers[k].0.as_str()) {
            obj = obj.with_member(answers[k].0.as_str(), Json::string(answers[k].1.as_str()));
        }
        k = k + 1;
    }
    Some(to_json_text(&obj))
}

/// A chain cancelled at any prompt gives no answers, so nothing of it
/// reaches the item: its `prompts` stay and no answer becomes a member.
pub proof fn lemma_cancel_discards(
    prompts: Seq<(Seq<char>, Seq<char>, Option<Seq<Seq<char>>>)>,
    replies: Seq<Seq<char>>,
    i: int,
)
    requires
        replies.len() <= prompts.len(),
        0 <= i < replies.len(),
        answer_of(prompts[i].2 is Some, replies[i]) is None,
    ensures
        chain_answers(prompts, replies) is None,
    decreases replies.len(),
{
    if i < replies.len() - 1 {
        lemma_cancel_discards(prompts, replies.drop_last(), i);
    }
}

} // verus!
