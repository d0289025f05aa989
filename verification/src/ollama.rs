//! Decisions around the local model server: which model to use, how a chat
//! request is retried, what a reply means, which models are installed, and
//! how the progress of a model download is reported.
use vstd::prelude::*;

use crate::json::{as_text, as_unsigned, get_member, member, member_text, member_unsigned, Json, JsonNumber};
use crate::question::{extract_json_array, extract_outcome};
use crate::store::Settings;
use crate::text::{
    chars_of, contains_char, is_blank, push_signed_decimal, signed_decimal, string_of_range,
    to_owned, trim, trim_str,
};

verus! {

/// The model used when the settings name none (or an unusable one).
pub const DEFAULT_MODEL: &'static str = "gemma3:4b";

// ---------------------------------------------------------------------------
// Model names
// ---------------------------------------------------------------------------

/// A name the server can be asked for: not blank, and without a space once
/// trimmed.
pub open spec fn model_name_ok(m: Seq<char>) -> bool {
    trim(m).len() > 0 && !trim(m).contains(' ')
}

/// The model that the settings select: the trimmed setting when it names a
/// usable model, else the default model.
pub open spec fn chosen_model(setting: Seq<char>) -> Seq<char> {
    if model_name_ok(setting) {
        trim(setting)
    } else {
        DEFAULT_MODEL@
    }
}

/// The model to use with the given settings.
pub fn default_model(settings: &Settings) -> (r: String)
    ensures
        r@ == chosen_model(settings.ollama_model@),
        r@ == if trim(settings.ollama_model@).len() > 0 && !trim(settings.ollama_model@).contains(
            ' ',
        ) {
            trim(settings.ollama_model@)
        } else {
            "gemma3:4b"@
        },
{
    let m = trim_str(settings.ollama_model.as_str());
    if m.as_str().unicode_len() == 0 || contains_char(m.as_str(), ' ') {
        String::from_str(DEFAULT_MODEL)
    } else {
        m
    }
}

/// Whether an installed model is the wanted one, either by its exact name or
/// by the name with the `:latest` tag the server adds.
pub open spec fn model_matches_spec(installed: Seq<char>, wanted: Seq<char>) -> bool {
    installed == wanted || installed == wanted + ":latest"@
}

/// Whether the installed model `installed` is the model `wanted`.
pub fn model_matches(installed: &str, wanted: &str) -> (r: bool)
    ensures
        r == model_matches_spec(installed@, wanted@),
        r == (installed@ == wanted@ || installed@ == wanted@ + ":latest"@),
{
    if crate::text::str_equal(installed, wanted) {
        return true;
    }
    let mut tagged = to_owned(wanted);
    tagged.append(":latest");
    crate::text::str_equal(installed, tagged.as_str())
}

/// Whether some model of the list is the wanted one.
pub fn model_ready(models: &Vec<String>, wanted: &str) -> (r: bool)
    ensures
        r == exists|i: int| 0 <= i < models@.len() && model_matches_spec(models@[i]@, wanted@),
        r == exists|i: int|
            0 <= i < models@.len() && (#[trigger] models@[i]@ == wanted@ || models@[i]@ == wanted@
                + ":latest"@),
{
    let mut i: usize = 0;
    while i < models.len()
        invariant
            i <= models@.len(),
            forall|j: int| 0 <= j < i ==> !model_matches_spec(#[trigger] models@[j]@, wanted@),
        decreases models.len() - i,
    {
        if model_matches(models[i].as_str(), wanted) {
            return true;
        }
        i = i + 1;
    }
    false
}

/// The message for a model name that cannot be used for generation.
pub open spec fn bad_model_message(m: Seq<char>) -> Seq<char> {
    "\""@ + trim(m) + "\" is not a valid model name — pick a model from the list in Settings"@
}

/// Checks a model name before a chat request: the trimmed name, or the
/// message that says it cannot be used.
pub fn check_model_name(model: &str) -> (r: Result<String, String>)
    ensures
        match r {
            Ok(m) => model_name_ok(model@) && m@ == trim(model@),
            Err(e) => !model_name_ok(model@) && e@ == bad_model_message(model@),
        },
        (r is Ok) == (trim(model@).len() > 0 && !trim(model@).contains(' ')),
        r matches Ok(m) ==> m@ == trim(model@),
{
    let m = trim_str(model);
    if m.as_str().unicode_len() == 0 || contains_char(m.as_str(), ' ') {
        let mut e = String::from_str("\"");
        e.append(m.as_str());
        e.append("\" is not a valid model name — pick a model from the list in Settings");
        Err(e)
    } else {
        Ok(m)
    }
}

/// The message when the model asked for during setup has a space in it.
pub open spec fn bad_setup_model_message(m: Seq<char>) -> Seq<char> {
    "\""@ + m + "\" is not a valid model name — use a name from ollama.com/library, e.g. qwen3:4b"@
}

/// The model that setup installs: the requested name, trimmed, when one is
/// given and not blank, else the model of the settings.
pub open spec fn setup_model(requested: Option<Seq<char>>, setting: Seq<char>) -> Seq<char> {
    match requested {
        Some(m) => if trim(m).len() > 0 {
            trim(m)
        } else {
            chosen_model(setting)
        },
        None => chosen_model(setting),
    }
}

/// Picks the model that setup installs, or the message that it cannot be
/// used (a name with a space in it).
pub fn setup_target(requested: Option<&str>, settings: &Settings) -> (r: Result<String, String>)
    ensures
        ({
            let m = setup_model(
                match requested {
                    Some(x) => Some(x@),
                    None => None,
                },
                settings.ollama_model@,
            );
            match r {
                Ok(t) => t@ == m && !m.contains(' '),
                Err(e) => m.contains(' ') && e@ == bad_setup_model_message(m),
            }
        }),
{
    let target = match requested {
        Some(m) => {
            if !is_blank(m) {
                trim_str(m)
            } else {
                default_model(settings)
            }
        },
        None => default_model(settings),
    };
    if contains_char(target.as_str(), ' ') {
        let mut e = String::from_str("\"");
        e.append(target.as_str());
        e.append(
            "\" is not a valid model name — use a name from ollama.com/library, e.g. qwen3:4b",
        );
        Err(e)
    } else {
        Ok(target)
    }
}

// ---------------------------------------------------------------------------
// Chat requests
// ---------------------------------------------------------------------------

/// A token bound kept between 2000 and 12000.
pub open spec fn budget_clamp(n: int) -> int {
    if n < 2000 {
        2000
    } else if n > 12000 {
        12000
    } else {
        n
    }
}

/// The bound on generated tokens for `count` questions: 350 per question,
/// kept between 2000 and 12000. The count is read as an `i64` and the
/// product wraps, as in a release build.
pub open spec fn token_budget(count: usize) -> i64 {
    budget_clamp((count as i64).wrapping_mul(350) as int) as i64
}

/// The `num_predict` option of a chat request for `count` questions: the
/// product `count * 350` kept between 2000 and 12000 whenever it fits in an
/// `i64`, and the wrapped product kept so otherwise.
pub fn num_predict(count: usize) -> (r: i64)
    ensures
        r == token_budget(count),
        2000 <= r <= 12000,
        count * 350 <= i64::MAX ==> r == budget_clamp(count * 350),
{
    let n: i64 = (count as i64).wrapping_mul(350);
    proof {
        if count * 350 <= i64::MAX {
            assert((count as i64) as int == count as int);
            assert(n == count * 350);
        }
    }
    if n < 2000 {
        2000
    } else if n > 12000 {
        12000
    } else {
        n
    }
}

/// The output constraint a chat request asks for.
#[derive(Clone, Copy, Debug, PartialEq, Eq, Structural)]
pub enum ResponseFormat {
    /// The JSON schema of a question array.
    Schema,
    /// Any JSON.
    PlainJson,
    /// No constraint.
    Free,
}

/// The format of the `i`-th attempt: the schema, then plain JSON, then none.
pub open spec fn attempt_format(i: nat) -> ResponseFormat {
    if i == 0 {
        ResponseFormat::Schema
    } else if i == 1 {
        ResponseFormat::PlainJson
    } else {
        ResponseFormat::Free
    }
}

/// The phase name reported before the `i`-th attempt.
pub open spec fn attempt_phase(i: nat) -> Seq<char> {
    if i == 0 {
        "starting"@
    } else if i == 1 {
        "retrying with plain JSON mode"@
    } else {
        "retrying without format constraints"@
    }
}

/// The number of chat attempts made for one model.
pub const MAX_ATTEMPTS: usize = 3;

/// The attempts at getting a usable reply from one model: first with the
/// question schema, then with plain JSON mode, then with no constraint; an
/// attempt is made only when the one before it failed.
pub struct ChatAttempts {
    model: String,
    tried: usize,
    last_error: String,
}

impl ChatAttempts {
    /// The model asked.
    pub closed spec fn model_spec(&self) -> Seq<char> {
        self.model@
    }

    /// How many attempts have failed so far.
    pub closed spec fn tried_spec(&self) -> nat {
        self.tried as nat
    }

    /// The error of the last failed attempt (empty before any).
    pub closed spec fn last_error_spec(&self) -> Seq<char> {
        self.last_error@
    }

    /// At most every attempt has failed.
    pub closed spec fn wf(&self) -> bool {
        self.tried <= MAX_ATTEMPTS
    }

    /// No attempt made yet for `model`.
    pub fn new(model: String) -> (r: Self)
        ensures
            r.wf(),
            r.model_spec() == model@,
            r.tried_spec() == 0,
            r.last_error_spec() == Seq::<char>::empty(),
    {
        ChatAttempts { model, tried: 0, last_error: String::new() }
    }

    /// The next attempt to make, with its progress message
    /// (`"<model>: <phase>…"`), or `None` once all three have failed.
    pub fn next_attempt(&self) -> (r: Option<(ResponseFormat, String)>)
        requires
            self.wf(),
        ensures
            match r {
                Some((f, msg)) => self.tried_spec() < 3 && f == attempt_format(self.tried_spec())
                    && msg@ == self.model_spec() + ": "@ + attempt_phase(self.tried_spec())
                    + "…"@,
                None => self.tried_spec() == 3,
            },
    {
        if self.tried >= MAX_ATTEMPTS {
            return None;
        }
        let (f, phase) = if self.tried == 0 {
            (ResponseFormat::Schema, "starting")
        } else if self.tried == 1 {
            (ResponseFormat::PlainJson, "retrying with plain JSON mode")
        } else {
            (ResponseFormat::Free, "retrying without format constraints")
        };
        let mut msg = to_owned(self.model.as_str());
        msg.append(": ");
        msg.append(phase);
        msg.append("…");
        Some((f, msg))
    }

    /// Takes the outcome of the attempt just made: a reply whose questions
    /// can be read is the result; otherwise its error (or the request's)
    /// becomes the last error and the next attempt is due.
    pub fn record(&mut self, outcome: Result<String, String>) -> (r: Option<String>)
        requires
            old(self).wf(),
            old(self).tried_spec() < 3,
        ensures
            final(self).wf(),
            final(self).model_spec() == old(self).model_spec(),
            match outcome {
                Ok(text) => match extract_outcome(text@) {
                    Ok(_) => r == Some(text) && *final(self) == *old(self),
                    Err(e) => r is None && final(self).tried_spec() == old(self).tried_spec() + 1
                        && final(self).last_error_spec() == e,
                },
                Err(e) => r is None && final(self).tried_spec() == old(self).tried_spec() + 1
                    && final(self).last_error_spec() == e@,
            },
    {
        match outcome {
            Ok(text) => {
                match extract_json_array(text.as_str()) {
                    Ok(_) => Some(text),
                    Err(e) => {
                        self.last_error = e;
                        self.tried = self.tried + 1;
                        None
                    },
                }
            },
            Err(e) => {
                self.last_error = e;
                self.tried = self.tried + 1;
                None
            },
        }
    }

    /// The error to report once every attempt has failed.
    pub fn final_error(&self) -> (r: String)
        ensures
            r@ == self.last_error_spec(),
    {
        self.last_error.clone()
    }
}

/// The message for a chat request that could not be sent.
pub fn send_error_message(timed_out: bool) -> (r: String)
    ensures
        r@ == if timed_out {
            "Local AI took too long to respond (over 5 minutes) — try fewer questions, \
a smaller model, or fewer models at once"@
        } else {
            "Local AI is not running — open Settings and click \"Install & start local AI\""@
        },
{
    if timed_out {
        String::from_str(
            "Local AI took too long to respond (over 5 minutes) — try fewer questions, \
a smaller model, or fewer models at once",
        )
    } else {
        String::from_str(
            "Local AI is not running — open Settings and click \"Install & start local AI\"",
        )
    }
}

/// What a chat reply amounts to: the generated text, or an error. The body
/// is read first; a failure status is reported with the server's `error`
/// text; a reply cut off by the length limit, and one without text (or with
/// blank text), are errors.
pub open spec fn chat_outcome(
    status_ok: bool,
    status: Seq<char>,
    body: Result<Json, Seq<char>>,
) -> Result<Seq<char>, Seq<char>> {
    match body {
        Err(e) => Err("Local AI response unreadable: "@ + e),
        Ok(v) => if !status_ok {
            let msg = match as_text(member(v, "error"@)) {
                Some(m) => m,
                None => "unknown error"@,
            };
            Err("Local AI error ("@ + status + "): "@ + msg)
        } else if as_text(member(v, "done_reason"@)) == Some("length"@) {
            Err("ran out of room mid-answer"@)
        } else {
            match as_text(member(member(v, "message"@), "content"@)) {
                Some(t) => if trim(t).len() > 0 {
                    Ok(t)
                } else {
                    Err("Local AI returned no text"@)
                },
                None => Err("Local AI returned no text"@),
            }
        },
    }
}

/// Reads a chat reply (see `chat_outcome`): `status_ok` and `status` are
/// the HTTP status and its text, `body` the decoded JSON body or the text of
/// the decoding error.
pub fn read_chat_reply(status_ok: bool, status: &str, body: &Result<Json, String>) -> (r: Result<
    String,
    String,
>)
    ensures
        ({
            let b = match body {
                Ok(v) => Ok::<Json, Seq<char>>(*v),
                Err(e) => Err::<Json, Seq<char>>(e@),
            };
            match r {
                Ok(t) => chat_outcome(status_ok, status@, b) == Ok::<Seq<char>, Seq<char>>(t@),
                Err(e) => chat_outcome(status_ok, status@, b) == Err::<Seq<char>, Seq<char>>(e@),
            }
        }),
{
    let v = match body {
        Err(e) => {
            let mut m = String::from_str("Local AI response unreadable: ");
            m.append(e.as_str());
            return Err(m);
        },
        Ok(v) => v,
    };
    if !status_ok {
        let mut m = String::from_str("Local AI error (");
        m.append(status);
        m.append("): ");
        match member_text(v, "error") {
            Some(t) => m.append(t.as_str()),
            None => m.append("unknown error"),
        }
        return Err(m);
    }
    match member_text(v, "done_reason") {
        Some(t) => {
            if crate::text::str_equal(t.as_str(), "length") {
                return Err(String::from_str("ran out of room mid-answer"));
            }
        },
        None => {},
    }
    let content = match get_member(v, "message") {
        Some(msg) => member_text(msg, "content"),
        None => {
            assert(as_text(member(Json::Null, "content"@)) is None);
            None
        },
    };
    match content {
        Some(t) => {
            if is_blank(t.as_str()) {
                Err(String::from_str("Local AI returned no text"))
            } else {
                Ok(t.clone())
            }
        },
        None => Err(String::from_str("Local AI returned no text")),
    }
}

// ---------------------------------------------------------------------------
// The answer format asked for
// ---------------------------------------------------------------------------

/// The members of an object (none for any other value).
pub open spec fn entries_of(j: Json) -> Seq<(String, Json)> {
    match j {
        Json::Object(es) => es@,
        _ => Seq::empty(),
    }
}

/// `j` is an object whose members have exactly the names `keys`, in order.
pub open spec fn has_members(j: Json, keys: Seq<Seq<char>>) -> bool {
    &&& j is Object
    &&& entries_of(j).len() == keys.len()
    &&& forall|i: int| 0 <= i < keys.len() ==> (#[trigger] entries_of(j)[i]).0@ == keys[i]
}

/// The value of the `i`-th member of an object.
pub open spec fn member_at(j: Json, i: int) -> Json {
    entries_of(j)[i].1
}

/// `j` is the JSON string `t`.
pub open spec fn is_text(j: Json, t: Seq<char>) -> bool {
    as_text(j) == Some(t)
}

/// `j` is the non-negative integer `n`.
pub open spec fn is_count(j: Json, n: u64) -> bool {
    j == Json::Number(JsonNumber::PosInt(n))
}

/// `{"type": t}`.
pub open spec fn is_type_only(j: Json, t: Seq<char>) -> bool {
    has_members(j, seq!["type"@]) && is_text(member_at(j, 0), t)
}

/// The schema of a list of exactly four strings.
pub open spec fn is_four_strings(j: Json) -> bool {
    &&& has_members(j, seq!["type"@, "items"@, "minItems"@, "maxItems"@])
    &&& is_text(member_at(j, 0), "array"@)
    &&& is_type_only(member_at(j, 1), "string"@)
    &&& is_count(member_at(j, 2), 4)
    &&& is_count(member_at(j, 3), 4)
}

/// The JSON schema of a question array: an array of objects with a string
/// `question`, exactly four string `answers`, an integer `correct_index`
/// from 0 to 3 and exactly four string `explanations`, all four required.
pub open spec fn is_question_schema(j: Json) -> bool {
    &&& has_members(j, seq!["type"@, "items"@])
    &&& is_text(member_at(j, 0), "array"@)
    &&& {
        let items = member_at(j, 1);
        &&& has_members(items, seq!["type"@, "properties"@, "required"@])
        &&& is_text(member_at(items, 0), "object"@)
        &&& {
            let props = member_at(items, 1);
            &&& has_members(
                props,
                seq!["question"@, "answers"@, "correct_index"@, "explanations"@],
            )
            &&& is_type_only(member_at(props, 0), "string"@)
            &&& is_four_strings(member_at(props, 1))
            &&& {
                let c = member_at(props, 2);
                &&& has_members(c, seq!["type"@, "minimum"@, "maximum"@])
                &&& is_text(member_at(c, 0), "integer"@)
                &&& is_count(member_at(c, 1), 0)
                &&& is_count(member_at(c, 2), 3)
            }
            &&& is_four_strings(member_at(props, 3))
        }
        &&& crate::question::text_list(member_at(items, 2)) == Some(
            seq!["question"@, "answers"@, "correct_index"@, "explanations"@],
        )
    }
}

fn text_json(t: &str) -> (r: Json)
    ensures
        is_text(r, t@),
{
    Json::Str(String::from_str(t))
}

fn member_pair(k: &str, v: Json) -> (r: (String, Json))
    ensures
        r.0@ == k@,
        r.1 == v,
{
    (String::from_str(k), v)
}

fn type_only(t: &str) -> (r: Json)
    ensures
        is_type_only(r, t@),
{
    let mut es: Vec<(String, Json)> = Vec::new();
    es.push(member_pair("type", text_json(t)));
    let r = Json::Object(es);
    assert(entries_of(r)[0].0@ == "type"@);
    r
}

fn four_strings() -> (r: Json)
    ensures
        is_four_strings(r),
{
    let mut es: Vec<(String, Json)> = Vec::new();
    es.push(member_pair("type", text_json("array")));
    es.push(member_pair("items", type_only("string")));
    es.push(member_pair("minItems", Json::Number(JsonNumber::PosInt(4))));
    es.push(member_pair("maxItems", Json::Number(JsonNumber::PosInt(4))));
    let r = Json::Object(es);
    assert(has_members(r, seq!["type"@, "items"@, "minItems"@, "maxItems"@]));
    r
}

/// The JSON schema that constrains a chat reply to a question array (see
/// `is_question_schema`), passed as the request's `format`.
pub fn question_schema() -> (r: Json)
    ensures
        is_question_schema(r),
{
    let mut c: Vec<(String, Json)> = Vec::new();
    c.push(member_pair("type", text_json("integer")));
    c.push(member_pair("minimum", Json::Number(JsonNumber::PosInt(0))));
    c.push(member_pair("maximum", Json::Number(JsonNumber::PosInt(3))));
    let c = Json::Object(c);
    assert(has_members(c, seq!["type"@, "minimum"@, "maximum"@]));

    let mut props: Vec<(String, Json)> = Vec::new();
    props.push(member_pair("question", type_only("string")));
    props.push(member_pair("answers", four_strings()));
    props.push(member_pair("correct_index", c));
    props.push(member_pair("explanations", four_strings()));
    let props = Json::Object(props);
    assert(has_members(props, seq!["question"@, "answers"@, "correct_index"@, "explanations"@]));

    let mut required: Vec<Json> = Vec::new();
    required.push(text_json("question"));
    required.push(text_json("answers"));
    required.push(text_json("correct_index"));
    required.push(text_json("explanations"));
    let required = Json::Array(required);
    assert(crate::question::text_list(required) =~= Some(
        seq!["question"@, "answers"@, "correct_index"@, "explanations"@],
    ));

    let mut items: Vec<(String, Json)> = Vec::new();
    items.push(member_pair("type", text_json("object")));
    items.push(member_pair("properties", props));
    items.push(member_pair("required", required));
    let items = Json::Object(items);
    assert(has_members(items, seq!["type"@, "properties"@, "required"@]));

    let mut top: Vec<(String, Json)> = Vec::new();
    top.push(member_pair("type", text_json("array")));
    top.push(member_pair("items", items));
    let r = Json::Object(top);
    assert(has_members(r, seq!["type"@, "items"@]));
    r
}

// ---------------------------------------------------------------------------
// Installed models
// ---------------------------------------------------------------------------

/// The `name` texts of the entries of a model list, in order, skipping
/// entries without one.
pub open spec fn names_in(items: Seq<Json>) -> Seq<Seq<char>>
    decreases items.len(),
{
    if items.len() == 0 {
        Seq::empty()
    } else {
        let rest = names_in(items.drop_last());
        match as_text(member(items.last(), "name"@)) {
            Some(n) => rest.push(n),
            None => rest,
        }
    }
}

/// The installed models that a model-list reply names.
pub open spec fn installed_models(v: Json) -> Seq<Seq<char>> {
    match member(v, "models"@) {
        Json::Array(a) => names_in(a@),
        _ => Seq::empty(),
    }
}

/// The names of the installed models in the server's model list.
pub fn model_names(reply: &Json) -> (r: Vec<String>)
    ensures
        r@.map_values(|s: String| s@) == installed_models(*reply),
{
    let mut out: Vec<String> = Vec::new();
    match get_member(reply, "models") {
        Some(Json::Array(items)) => {
            let mut i: usize = 0;
            while i < items.len()
                invariant
                    i <= items@.len(),
                    out@.map_values(|s: String| s@) == names_in(items@.take(i as int)),
                decreases items.len() - i,
            {
                let ghost before = out@;
                assert(items@.take(i + 1).drop_last() =~= items@.take(i as int));
                assert(items@.take(i + 1).last() == items@[i as int]);
                match member_text(&items[i], "name") {
                    Some(n) => {
                        out.push(n.clone());
                        assert(out@.map_values(|s: String| s@) =~= before.map_values(
                            |s: String| s@,
                        ).push(n@));
                    },
                    None => {},
                }
                i = i + 1;
            }
            assert(items@.take(items@.len() as int) =~= items@);
        },
        _ => {},
    }
    assert(out@.map_values(|s: String| s@) =~= installed_models(*reply));
    out
}

/// The message shown when a model download starts.
pub fn download_start_message(target: &str) -> (r: String)
    ensures
        r@ == "Downloading AI model \""@ + target@ + "\" (one-time)…"@,
{
    let mut m = String::from_str("Downloading AI model \"");
    m.append(target);
    m.append("\" (one-time)…");
    m
}

/// The message shown once the model is installed.
pub fn model_ready_message(target: &str) -> (r: String)
    ensures
        r@ == "Model \""@ + target@ + "\" is ready!"@,
{
    let mut m = String::from_str("Model \"");
    m.append(target);
    m.append("\" is ready!");
    m
}

/// The progress message when a model has finished generating.
pub fn generation_done_message(model: &str) -> (r: String)
    ensures
        r@ == model@ + ": done"@,
{
    let mut m = to_owned(model);
    m.append(": done");
    m
}

// ---------------------------------------------------------------------------
// Setting up the local model server
// ---------------------------------------------------------------------------

/// The message shown before the server is started.
pub const STARTING_NOTICE: &'static str = "Starting local AI server…";

/// The error when the server does not answer after being started.
pub const SERVER_DID_NOT_START: &'static str = "local AI server did not start — try restarting the app";

/// How many times the server is asked whether it runs, one second apart,
/// after it was started.
pub const SERVER_POLLS: u32 = 30;

/// Where the setup of the local model server stands.
#[derive(Clone, Copy, Debug, PartialEq, Eq, Structural)]
pub enum SetupStage {
    /// Looking for the server program.
    FindServer,
    /// Installing the server.
    Installing,
    /// Moving the model store into the app's folder.
    Localizing,
    /// Asking whether the server runs.
    CheckRunning,
    /// Starting the server.
    Starting,
    /// Asking whether the started server runs, after this many such questions.
    Polling(u32),
    /// Waiting a second, after this many questions.
    Sleeping(u32),
    /// Asking once more after the waiting.
    FinalCheck,
    /// Listing the installed models.
    ListingModels,
    /// Downloading the model.
    Pulling,
    /// Done.
    Finished,
}

/// What came of the action asked for.
#[derive(Debug)]
pub enum SetupEvent {
    /// Whether the server program was found.
    ServerFound(bool),
    /// The action completed.
    Completed,
    /// The action failed with this message.
    Failed(String),
    /// Whether the server answers.
    Running(bool),
    /// The installed models.
    Models(Vec<String>),
}

/// The next thing to do during setup.
#[derive(Debug)]
pub enum SetupAction {
    /// Look for the server program; answer with `ServerFound`.
    LookForServer,
    /// Install the server; answer with `Completed` or `Failed`.
    Install,
    /// Move the model store; answer with `Completed` or `Failed`.
    Localize,
    /// Ask whether the server runs; answer with `Running`.
    CheckServer,
    /// Show the message and start the server if its program is found; answer
    /// with `Completed`.
    StartServer(String),
    /// Wait this many milliseconds; answer with `Completed`.
    Sleep(u64),
    /// List the installed models; answer with `Models`.
    ListModels,
    /// Show the message and download the model; answer with `Completed` or
    /// `Failed`.
    Pull(String),
    /// Setup ends with this result, after showing the message if there is one.
    Finish(Result<String, String>, Option<String>),
}

/// The content of a setup event.
pub enum SetupEventView {
    ServerFound(bool),
    Completed,
    Failed(Seq<char>),
    Running(bool),
    Models(Seq<Seq<char>>),
}

/// The content of a setup action.
pub enum SetupActionView {
    LookForServer,
    Install,
    Localize,
    CheckServer,
    StartServer(Seq<char>),
    Sleep(u64),
    ListModels,
    Pull(Seq<char>),
    Finish(Result<Seq<char>, Seq<char>>, Option<Seq<char>>),
}

/// The content of an event.
pub open spec fn event_view(e: SetupEvent) -> SetupEventView {
    match e {
        SetupEvent::ServerFound(b) => SetupEventView::ServerFound(b),
        SetupEvent::Completed => SetupEventView::Completed,
        SetupEvent::Failed(m) => SetupEventView::Failed(m@),
        SetupEvent::Running(b) => SetupEventView::Running(b),
        SetupEvent::Models(v) => SetupEventView::Models(crate::question::texts(v@)),
    }
}

/// The content of an action.
pub open spec fn action_view(a: SetupAction) -> SetupActionView {
    match a {
        SetupAction::LookForServer => SetupActionView::LookForServer,
        SetupAction::Install => SetupActionView::Install,
        SetupAction::Localize => SetupActionView::Localize,
        SetupAction::CheckServer => SetupActionView::CheckServer,
        SetupAction::StartServer(m) => SetupActionView::StartServer(m@),
        SetupAction::Sleep(ms) => SetupActionView::Sleep(ms),
        SetupAction::ListModels => SetupActionView::ListModels,
        SetupAction::Pull(m) => SetupActionView::Pull(m@),
        SetupAction::Finish(r, n) => SetupActionView::Finish(
            match r {
                Ok(t) => Ok(t@),
                Err(e) => Err(e@),
            },
            match n {
                Some(x) => Some(x@),
                None => None,
            },
        ),
    }
}

/// Whether a list of installed models holds the wanted one.
pub open spec fn lists_model(models: Seq<Seq<char>>, wanted: Seq<char>) -> bool {
    exists|i: int| 0 <= i < models.len() && model_matches_spec(models[i], wanted)
}

/// The end of a setup that succeeded: `"ready"`, after the ready message.
pub open spec fn setup_done(target: Seq<char>) -> SetupActionView {
    SetupActionView::Finish(Ok("ready"@), Some("Model \""@ + target + "\" is ready!"@))
}

/// The action that a stage asks for.
pub open spec fn stage_action(stage: SetupStage, target: Seq<char>) -> SetupActionView {
    match stage {
        SetupStage::FindServer => SetupActionView::LookForServer,
        SetupStage::Installing => SetupActionView::Install,
        SetupStage::Localizing => SetupActionView::Localize,
        SetupStage::CheckRunning => SetupActionView::CheckServer,
        SetupStage::Starting => SetupActionView::StartServer(STARTING_NOTICE@),
        SetupStage::Polling(_) => SetupActionView::CheckServer,
        SetupStage::Sleeping(_) => SetupActionView::Sleep(1000),
        SetupStage::FinalCheck => SetupActionView::CheckServer,
        SetupStage::ListingModels => SetupActionView::ListModels,
        SetupStage::Pulling => SetupActionView::Pull(
            "Downloading AI model \""@ + target + "\" (one-time)…"@,
        ),
        SetupStage::Finished => setup_done(target),
    }
}

/// The next stage and action of a setup for `target` after `event`: a
/// missing server is installed; the model store is moved; a server that does
/// not run is started and then asked up to 30 times, a second apart, and
/// once more after that; a model that is not installed is downloaded. An
/// installation, move or download that fails ends setup with its error. An
/// event that does not answer the stage's action changes nothing.
pub open spec fn setup_step(stage: SetupStage, target: Seq<char>, event: SetupEventView) -> (
    SetupStage,
    SetupActionView,
) {
    match (stage, event) {
        (SetupStage::FindServer, SetupEventView::ServerFound(found)) => if found {
            (SetupStage::Localizing, SetupActionView::Localize)
        } else {
            (SetupStage::Installing, SetupActionView::Install)
        },
        (SetupStage::Installing, SetupEventView::Completed) => (
            SetupStage::Localizing,
            SetupActionView::Localize,
        ),
        (SetupStage::Installing, SetupEventView::Failed(e)) => (
            SetupStage::Finished,
            SetupActionView::Finish(Err(e), None),
        ),
        (SetupStage::Localizing, SetupEventView::Completed) => (
            SetupStage::CheckRunning,
            SetupActionView::CheckServer,
        ),
        (SetupStage::Localizing, SetupEventView::Failed(e)) => (
            SetupStage::Finished,
            SetupActionView::Finish(Err(e), None),
        ),
        (SetupStage::CheckRunning, SetupEventView::Running(up)) => if up {
            (SetupStage::ListingModels, SetupActionView::ListModels)
        } else {
            (SetupStage::Starting, SetupActionView::StartServer(STARTING_NOTICE@))
        },
        (SetupStage::Starting, SetupEventView::Completed) => (
            SetupStage::Polling(0),
            SetupActionView::CheckServer,
        ),
        (SetupStage::Polling(n), SetupEventView::Running(up)) => if up {
            (SetupStage::FinalCheck, SetupActionView::CheckServer)
        } else {
            (SetupStage::Sleeping((n + 1) as u32), SetupActionView::Sleep(1000))
        },
        (SetupStage::Sleeping(n), SetupEventView::Completed) => if n < SERVER_POLLS {
            (SetupStage::Polling(n), SetupActionView::CheckServer)
        } else {
            (SetupStage::FinalCheck, SetupActionView::CheckServer)
        },
        (SetupStage::FinalCheck, SetupEventView::Running(up)) => if up {
            (SetupStage::ListingModels, SetupActionView::ListModels)
        } else {
            (SetupStage::Finished, SetupActionView::Finish(Err(SERVER_DID_NOT_START@), None))
        },
        (SetupStage::ListingModels, SetupEventView::Models(v)) => if lists_model(v, target) {
            (SetupStage::Finished, setup_done(target))
        } else {
            (SetupStage::Pulling, stage_action(SetupStage::Pulling, target))
        },
        (SetupStage::Pulling, SetupEventView::Completed) => (SetupStage::Finished, setup_done(target)),
        (SetupStage::Pulling, SetupEventView::Failed(e)) => (
            SetupStage::Finished,
            SetupActionView::Finish(Err(e), None),
        ),
        _ => (stage, stage_action(stage, target)),
    }
}

/// The setup of the local model server for one model, step by step: the
/// app performs each action and answers with what came of it.
pub struct LocalAiSetup {
    target: String,
    stage: SetupStage,
}

impl LocalAiSetup {
    /// The server is asked at most `SERVER_POLLS` times before the last check.
    #[verifier::type_invariant]
    spec fn polls_in_range(&self) -> bool {
        &&& self.stage matches SetupStage::Polling(n) ==> n < SERVER_POLLS
        &&& self.stage matches SetupStage::Sleeping(n) ==> n <= SERVER_POLLS
    }

    /// The model being set up.
    pub closed spec fn target_spec(&self) -> Seq<char> {
        self.target@
    }

    /// Where the setup stands.
    pub closed spec fn stage_spec(&self) -> SetupStage {
        self.stage
    }

    /// A setup for `target` (see `setup_target`), which starts by looking for
    /// the server program.
    pub fn new(target: String) -> (r: (Self, SetupAction))
        ensures
            r.0.target_spec() == target@,
            r.0.stage_spec() == SetupStage::FindServer,
            action_view(r.1) == SetupActionView::LookForServer,
    {
        (LocalAiSetup { target, stage: SetupStage::FindServer }, SetupAction::LookForServer)
    }

    /// Whether setup has ended.
    pub fn is_finished(&self) -> (r: bool)
        ensures
            r == (self.stage_spec() == SetupStage::Finished),
    {
        self.stage == SetupStage::Finished
    }

    fn action_of(&self) -> (r: SetupAction)
        ensures
            action_view(r) == stage_action(self.stage, self.target@),
    {
        match self.stage {
            SetupStage::FindServer => SetupAction::LookForServer,
            SetupStage::Installing => SetupAction::Install,
            SetupStage::Localizing => SetupAction::Localize,
            SetupStage::CheckRunning => SetupAction::CheckServer,
            SetupStage::Starting => SetupAction::StartServer(String::from_str(STARTING_NOTICE)),
            SetupStage::Polling(_) => SetupAction::CheckServer,
            SetupStage::Sleeping(_) => SetupAction::Sleep(1000),
            SetupStage::FinalCheck => SetupAction::CheckServer,
            SetupStage::ListingModels => SetupAction::ListModels,
            SetupStage::Pulling => SetupAction::Pull(download_start_message(self.target.as_str())),
            SetupStage::Finished => SetupAction::Finish(
                Ok(String::from_str("ready")),
                Some(model_ready_message(self.target.as_str())),
            ),
        }
    }

    /// Takes what came of the last action and gives the next one (see
    /// `setup_step`).
    pub fn step(&mut self, event: SetupEvent) -> (r: SetupAction)
        ensures
            final(self).target_spec() == old(self).target_spec(),
            (final(self).stage_spec(), action_view(r)) == setup_step(
                old(self).stage_spec(),
                old(self).target_spec(),
                event_view(event),
            ),
    {
        proof {
            use_type_invariant(&*self);
        }
        let (stage, action) = match (self.stage, event) {
            (SetupStage::FindServer, SetupEvent::ServerFound(found)) => {
                if found {
                    (SetupStage::Localizing, SetupAction::Localize)
                } else {
                    (SetupStage::Installing, SetupAction::Install)
                }
            },
            (SetupStage::Installing, SetupEvent::Completed) => (
                SetupStage::Localizing,
                SetupAction::Localize,
            ),
            (SetupStage::Installing, SetupEvent::Failed(e)) => (
                SetupStage::Finished,
                SetupAction::Finish(Err(e), None),
            ),
            (SetupStage::Localizing, SetupEvent::Completed) => (
                SetupStage::CheckRunning,
                SetupAction::CheckServer,
            ),
            (SetupStage::Localizing, SetupEvent::Failed(e)) => (
                SetupStage::Finished,
                SetupAction::Finish(Err(e), None),
            ),
            (SetupStage::CheckRunning, SetupEvent::Running(up)) => {
                if up {
                    (SetupStage::ListingModels, SetupAction::ListModels)
                } else {
                    (
                        SetupStage::Starting,
                        SetupAction::StartServer(String::from_str(STARTING_NOTICE)),
                    )
                }
            },
            (SetupStage::Starting, SetupEvent::Completed) => (
                SetupStage::Polling(0),
                SetupAction::CheckServer,
            ),
            (SetupStage::Polling(n), SetupEvent::Running(up)) => {
                if up {
                    (SetupStage::FinalCheck, SetupAction::CheckServer)
                } else {
                    (SetupStage::Sleeping(n + 1), SetupAction::Sleep(1000))
                }
            },
            (SetupStage::Sleeping(n), SetupEvent::Completed) => {
                if n < SERVER_POLLS {
                    (SetupStage::Polling(n), SetupAction::CheckServer)
                } else {
                    (SetupStage::FinalCheck, SetupAction::CheckServer)
                }
            },
            (SetupStage::FinalCheck, SetupEvent::Running(up)) => {
                if up {
                    (SetupStage::ListingModels, SetupAction::ListModels)
                } else {
                    (
                        SetupStage::Finished,
                        SetupAction::Finish(Err(String::from_str(SERVER_DID_NOT_START)), None),
                    )
                }
            },
            (SetupStage::ListingModels, SetupEvent::Models(v)) => {
                let ready = model_ready(&v, self.target.as_str());
                proof {
                    let names = crate::question::texts(v@);
                    assert forall|i: int| 0 <= i < v@.len() implies names[i] == v@[i]@ by {}
                    if ready {
                        let i = choose|i: int|
                            0 <= i < v@.len() && model_matches_spec(v@[i]@, self.target@);
                        assert(names[i] == v@[i]@);
                        assert(lists_model(names, self.target@));
                    }
                }
                if ready {
                    (
                        SetupStage::Finished,
                        SetupAction::Finish(
                            Ok(String::from_str("ready")),
                            Some(model_ready_message(self.target.as_str())),
                        ),
                    )
                } else {
                    (SetupStage::Pulling, SetupAction::Pull(download_start_message(self.target.as_str())))
                }
            },
            (SetupStage::Pulling, SetupEvent::Completed) => (
                SetupStage::Finished,
                SetupAction::Finish(
                    Ok(String::from_str("ready")),
                    Some(model_ready_message(self.target.as_str())),
                ),
            ),
            (SetupStage::Pulling, SetupEvent::Failed(e)) => (
                SetupStage::Finished,
                SetupAction::Finish(Err(e), None),
            ),
            _ => (self.stage, self.action_of()),
        };
        self.stage = stage;
        action
    }
}

// ---------------------------------------------------------------------------
// Download progress
// ---------------------------------------------------------------------------

/// The percentage a progress line reports: `completed * 100 / max(total, 1)`,
/// with the multiplication wrapping as in a release build, read as `i64`.
pub open spec fn percent(completed: u64, total: u64) -> i64 {
    let t: u64 = if total < 1 {
        1
    } else {
        total
    };
    ((completed.wrapping_mul(100) / t) as u64) as i64
}

/// The message that reports a download percentage.
pub open spec fn percent_message(target: Seq<char>, pct: i64) -> Seq<char> {
    "Downloading \""@ + target + "\" — "@ + signed_decimal(pct as int) + "%"@
}

/// What one progress line does: nothing, a message to show (with the
/// percentage last shown afterwards), or an error that ends the download.
pub enum LineEffect {
    Nothing,
    Show(Seq<char>, i64),
    Fail(Seq<char>),
}

/// The effect of one line of the server's download stream, given the
/// percentage shown last. Blank lines and lines that are not JSON are
/// skipped; an `error` text ends the download; a line with both `total` and
/// `completed` shows the percentage when it changed; any other line shows
/// its `status` text when there is one.
pub open spec fn line_effect(line: Seq<char>, last_pct: i64, target: Seq<char>) -> LineEffect {
    let l = trim(line);
    if l.len() == 0 {
        LineEffect::Nothing
    } else {
        match crate::json::parse_result(l) {
            None => LineEffect::Nothing,
            Some(v) => match as_text(member(v, "error"@)) {
                Some(err) => LineEffect::Fail("model download failed: "@ + err),
                None => match (as_unsigned(member(v, "total"@)), as_unsigned(
                    member(v, "completed"@),
                )) {
                    (Some(total), Some(done)) => {
                        let p = percent(done, total);
                        if p != last_pct {
                            LineEffect::Show(percent_message(target, p), p)
                        } else {
                            LineEffect::Nothing
                        }
                    },
                    _ => match as_text(member(v, "status"@)) {
                        Some(s) => if s.len() > 0 {
                            LineEffect::Show(s, last_pct)
                        } else {
                            LineEffect::Nothing
                        },
                        None => LineEffect::Nothing,
                    },
                },
            },
        }
    }
}

/// The state of a download stream: the text after the last complete line
/// and the percentage shown last.
pub struct PullState {
    pub pending: Seq<char>,
    pub last_pct: i64,
}

/// What handling the complete lines of `buf` gives: the messages to show, in
/// order, the error that ends the download if a line has one, and the state
/// after (the text after the last complete line, the percentage last shown).
pub open spec fn drain_lines(buf: Seq<char>, last_pct: i64, target: Seq<char>) -> (
    Seq<Seq<char>>,
    Option<Seq<char>>,
    PullState,
)
    decreases buf.len(),
{
    match crate::question::first_index(buf, '\n') {
        None => (Seq::empty(), None, PullState { pending: buf, last_pct }),
        Some(p) => if 0 <= p < buf.len() {
            match line_effect(buf.take(p), last_pct, target) {
                LineEffect::Fail(e) => (Seq::empty(), Some(e), PullState { pending: buf.skip(p + 1), last_pct }),
                LineEffect::Nothing => drain_lines(buf.skip(p + 1), last_pct, target),
                LineEffect::Show(m, next) => {
                    let (ms, err, st) = drain_lines(buf.skip(p + 1), next, target);
                    (seq![m] + ms, err, st)
                },
            }
        } else {
            (Seq::empty(), None, PullState { pending: buf, last_pct })
        },
    }
}

/// Reads the line-delimited JSON that the server streams while it downloads
/// a model, and turns it into the messages to show.
pub struct PullProgress {
    target: String,
    pending: Vec<char>,
    last_pct: i64,
}

/// What one chunk of the download stream yields: the messages to show, in
/// order, and the error that ends the download if a line reported one.
pub struct PullUpdate {
    pub messages: Vec<String>,
    pub error: Option<String>,
}

impl PullProgress {
    /// The model being downloaded.
    pub closed spec fn target_spec(&self) -> Seq<char> {
        self.target@
    }

    /// The state of the stream.
    pub closed spec fn state(&self) -> PullState {
        PullState { pending: self.pending@, last_pct: self.last_pct }
    }

    /// A stream for `target` with nothing read and no percentage shown.
    pub fn new(target: String) -> (r: Self)
        ensures
            r.target_spec() == target@,
            r.state() == (PullState { pending: Seq::empty(), last_pct: -1i64 }),
    {
        PullProgress { target, pending: Vec::new(), last_pct: -1 }
    }

    /// Handles the next chunk of the stream: every complete line that the
    /// chunk finishes is read, in order, until one reports an error.
    pub fn feed(&mut self, chunk: &str) -> (r: PullUpdate)
        ensures
            final(self).target_spec() == old(self).target_spec(),
            ({
                let (ms, err, st) = drain_lines(
                    old(self).state().pending + chunk@,
                    old(self).state().last_pct,
                    old(self).target_spec(),
                );
                &&& r.messages@.map_values(|s: String| s@) == ms
                &&& match r.error {
                    Some(e) => err == Some(e@),
                    None => err is None,
                }
                &&& final(self).state() == st
            }),
    {
        let cs = chars_of(chunk);
        let mut buf = Vec::new();
        buf.append(&mut self.pending.clone());
        let mut more = cs;
        buf.append(&mut more);
        let ghost whole = buf@;
        assert(whole =~= old(self).state().pending + chunk@);
        let mut messages: Vec<String> = Vec::new();
        let mut start: usize = 0;
        let mut last = self.last_pct;
        assert(buf@.skip(0) =~= buf@);
        loop
            invariant
                buf@ == whole,
                whole == old(self).state().pending + chunk@,
                start <= buf@.len(),
                self.target@ == old(self).target@,
                ({
                    let (ms, err, st) = drain_lines(buf@.skip(start as int), last, self.target@);
                    drain_lines(whole, old(self).last_pct, self.target@) == (
                        messages@.map_values(|s: String| s@) + ms,
                        err,
                        st,
                    )
                }),
            decreases buf@.len() - start,
        {
            let ghost rest = buf@.skip(start as int);
            let nl = find_newline(&buf, start);
            match nl {
                None => {
                    let pending = slice_vec(&buf, start, buf.len());
                    self.pending = pending;
                    self.last_pct = last;
                    proof {
                        assert(pending@ =~= rest);
                        assert(messages@.map_values(|s: String| s@) + Seq::<Seq<char>>::empty()
                            =~= messages@.map_values(|s: String| s@));
                        assert(drain_lines(rest, last, self.target@) == (
                            Seq::<Seq<char>>::empty(),
                            None::<Seq<char>>,
                            PullState { pending: rest, last_pct: last },
                        ));
                        assert(self.state() == PullState { pending: rest, last_pct: last });
                    }
                    return PullUpdate { messages, error: None };
                },
                Some(p) => {
                    proof {
                        assert(rest.take(p - start) =~= buf@.subrange(start as int, p as int));
                        assert(rest.skip(p - start + 1) =~= buf@.skip(p + 1));
                    }
                    let blen = buf.len();
                    assert(p < blen);
                    let line = string_of_range(&buf, start, p);
                    let effect = read_progress_line(line.as_str(), last, self.target.as_str());
                    match effect {
                        LineAction::Fail(e) => {
                            let pending = slice_vec(&buf, p + 1, buf.len());
                            self.pending = pending;
                            self.last_pct = last;
                            proof {
                                assert(pending@ =~= buf@.skip(p + 1));
                                assert(messages@.map_values(|s: String| s@) + Seq::<
                                    Seq<char>,
                                >::empty() =~= messages@.map_values(|s: String| s@));
                            }
                            return PullUpdate { messages, error: Some(e) };
                        },
                        LineAction::Nothing => {},
                        LineAction::Show(m, next) => {
                            let ghost before = messages@.map_values(|s: String| s@);
                            let ghost mv = m@;
                            messages.push(m);
                            last = next;
                            proof {
                                assert(messages@.map_values(|s: String| s@) =~= before.push(mv));
                                let (ms2, e2, st2) = drain_lines(
                                    buf@.skip(p + 1),
                                    next,
                                    self.target@,
                                );
                                assert(before + (seq![mv] + ms2) =~= before.push(mv) + ms2);
                            }
                        },
                    }
                    start = p + 1;
                },
            }
        }
    }
}

/// What the exec reader of one progress line decided.
pub enum LineAction {
    Nothing,
    Show(String, i64),
    Fail(String),
}

/// The first newline of `cs` at or after `start`.
fn find_newline(cs: &Vec<char>, start: usize) -> (r: Option<usize>)
    requires
        start <= cs@.len(),
    ensures
        match r {
            Some(p) => start <= p < cs@.len() && crate::question::first_index(
                cs@.skip(start as int),
                '\n',
            ) == Some(p - start),
            None => crate::question::first_index(cs@.skip(start as int), '\n') is None,
        },
{
    let ghost s = cs@.skip(start as int);
    let mut i: usize = start;
    while i < cs.len()
        invariant
            start <= i <= cs@.len(),
            s == cs@.skip(start as int),
            forall|j: int| start <= j < i ==> cs@[j] != '\n',
        decreases cs.len() - i,
    {
        if cs[i] == '\n' {
            proof {
                assert(crate::question::is_first_index(s, '\n', i - start));
                let k = choose|k: int| crate::question::is_first_index(s, '\n', k);
                assert(k == i - start) by {
                    if k > i - start {
                        assert(s[i - start] == '\n');
                    } else if k < i - start {
                        assert(s[k] == cs@[start + k]);
                    }
                }
            }
            return Some(i);
        }
        i = i + 1;
    }
    assert forall|k: int| !crate::question::is_first_index(s, '\n', k) by {
        if crate::question::is_first_index(s, '\n', k) {
            assert(s[k] == cs@[start + k]);
        }
    }
    None
}

/// The characters `cs[lo..hi]` as a new vector.
fn slice_vec(cs: &Vec<char>, lo: usize, hi: usize) -> (r: Vec<char>)
    requires
        lo <= hi <= cs@.len(),
    ensures
        r@ == cs@.subrange(lo as int, hi as int),
{
    let mut out: Vec<char> = Vec::new();
    let mut i = lo;
    while i < hi
        invariant
            lo <= i <= hi <= cs@.len(),
            out@ == cs@.subrange(lo as int, i as int),
        decreases hi - i,
    {
        out.push(cs[i]);
        assert(cs@.subrange(lo as int, i + 1) =~= cs@.subrange(lo as int, i as int).push(
            cs@[i as int],
        ));
        i = i + 1;
    }
    out
}

/// Reads one line of the download stream (see `line_effect`).
pub fn read_progress_line(line: &str, last_pct: i64, target: &str) -> (r: LineAction)
    ensures
        match (r, line_effect(line@, last_pct, target@)) {
            (LineAction::Nothing, LineEffect::Nothing) => true,
            (LineAction::Show(m, p), LineEffect::Show(m2, p2)) => m@ == m2 && p == p2,
            (LineAction::Fail(e), LineEffect::Fail(e2)) => e@ == e2,
            _ => false,
        },
{
    let l = trim_str(line);
    if l.as_str().unicode_len() == 0 {
        return LineAction::Nothing;
    }
    let v = match crate::json::parse_json(l.as_str()) {
        Ok(v) => v,
        Err(_) => {
            return LineAction::Nothing;
        },
    };
    if let Some(err) = member_text(&v, "error") {
        let mut m = String::from_str("model download failed: ");
        m.append(err.as_str());
        return LineAction::Fail(m);
    }
    let total = member_unsigned(&v, "total");
    let done = member_unsigned(&v, "completed");
    match (total, done) {
        (Some(total), Some(done)) => {
            let t: u64 = if total < 1 {
                1
            } else {
                total
            };
            let pct: i64 = (done.wrapping_mul(100) / t) as i64;
            if pct != last_pct {
                let mut m = String::from_str("Downloading \"");
                m.append(target);
                m.append("\" — ");
                push_signed_decimal(&mut m, pct);
                m.append("%");
                LineAction::Show(m, pct)
            } else {
                LineAction::Nothing
            }
        },
        _ => {
            match member_text(&v, "status") {
                Some(s) => {
                    if s.as_str().unicode_len() > 0 {
                        LineAction::Show(s.clone(), last_pct)
                    } else {
                        LineAction::Nothing
                    }
                },
                None => LineAction::Nothing,
            }
        },
    }
}

/// The model that the settings select can always be used for generation:
/// whatever the setting holds, the chosen name passes the check made before
/// every chat request.
pub proof fn chosen_model_is_usable(setting: Seq<char>)
    ensures
        model_name_ok(chosen_model(setting)),
{
    if model_name_ok(setting) {
        crate::text::trim_is_idempotent(setting);
    } else {
        reveal_strlit("gemma3:4b");
        let d = DEFAULT_MODEL@;
        assert(d.len() == 9);
        assert(crate::text::trim_start(d) == d);
        assert(crate::text::trim_end(d) == d);
        assert(!d.contains(' ')) by {
            if d.contains(' ') {
                let i = choose|i: int| 0 <= i < d.len() && d[i] == ' ';
                assert(d[i] != ' ');
            }
        }
    }
}

/// An installed model matches the name it was installed under, and the
/// same name with the `:latest` tag.
pub proof fn model_matches_own_name(wanted: Seq<char>)
    ensures
        model_matches_spec(wanted, wanted),
        model_matches_spec(wanted + ":latest"@, wanted),
{
}

/// The text kept after the complete lines of a download stream holds no
/// newline, unless a line ended the download with an error.
pub proof fn pending_text_has_no_newline(buf: Seq<char>, last_pct: i64, target: Seq<char>)
    ensures
        ({
            let (ms, err, st) = drain_lines(buf, last_pct, target);
            err is None ==> !st.pending.contains('\n')
        }),
    decreases buf.len(),
{
    match crate::question::first_index(buf, '\n') {
        None => {
            if buf.contains('\n') {
                let i = choose|i: int| 0 <= i < buf.len() && buf[i] == '\n';
                lemma_some_first_index(buf, '\n', i);
            }
        },
        Some(p) => {
            if 0 <= p < buf.len() {
                match line_effect(buf.take(p), last_pct, target) {
                    LineEffect::Fail(e) => {},
                    LineEffect::Nothing => {
                        pending_text_has_no_newline(buf.skip(p + 1), last_pct, target);
                    },
                    LineEffect::Show(m, next) => {
                        pending_text_has_no_newline(buf.skip(p + 1), next, target);
                    },
                }
            }
        },
    }
}

/// A text that holds `c` has a first position of `c`.
proof fn lemma_some_first_index(s: Seq<char>, c: char, i: int)
    requires
        0 <= i < s.len(),
        s[i] == c,
    ensures
        crate::question::first_index(s, c) is Some,
    decreases i,
{
    if exists|j: int| 0 <= j < i && s[j] == c {
        let j = choose|j: int| 0 <= j < i && s[j] == c;
        lemma_some_first_index(s, c, j);
    } else {
        assert(crate::question::is_first_index(s, c, i));
    }
}

/// A model name is usable exactly when, once trimmed, it is not empty and
/// holds no space: the settings then keep the trimmed name, and otherwise
/// fall back to `gemma3:4b`.
pub proof fn model_names_are_kept_unless_blank_or_spaced(m: Seq<char>)
    ensures
        model_name_ok(m) == (trim(m).len() > 0 && !trim(m).contains(' ')),
        trim(m).len() > 0 && !trim(m).contains(' ') ==> chosen_model(m) == trim(m),
        !(trim(m).len() > 0 && !trim(m).contains(' ')) ==> chosen_model(m) == "gemma3:4b"@,
{
}

/// An installed model is the wanted one exactly when its name is the wanted
/// name or the wanted name with `:latest`; so a name that differs from the
/// wanted one at some position before the wanted name ends (another tag of
/// the same family, say) never matches.
pub proof fn model_match_is_exact(installed: Seq<char>, wanted: Seq<char>)
    ensures
        model_matches_spec(installed, wanted) == (installed == wanted || installed == wanted
            + ":latest"@),
        (exists|k: int| 0 <= k < wanted.len() && k < installed.len() && installed[k] != wanted[k])
            ==> !model_matches_spec(installed, wanted),
{
    if exists|k: int| 0 <= k < wanted.len() && k < installed.len() && installed[k] != wanted[k] {
        let k = choose|k: int|
            0 <= k < wanted.len() && k < installed.len() && installed[k] != wanted[k];
        assert((wanted + ":latest"@)[k] == wanted[k]);
    }
}

/// Once the installed models are listed, setup finishes (ready) exactly
/// when one of them is named as the target or as the target with `:latest`,
/// and otherwise goes on to download the target.
pub proof fn setup_downloads_unless_installed(target: Seq<char>, names: Seq<Seq<char>>)
    ensures
        (exists|i: int| 0 <= i < names.len() && (#[trigger] names[i] == target || names[i] == target
            + ":latest"@)) ==> setup_step(
            SetupStage::ListingModels,
            target,
            SetupEventView::Models(names),
        ) == (SetupStage::Finished, setup_done(target)),
        !(exists|i: int| 0 <= i < names.len() && (#[trigger] names[i] == target || names[i] == target
            + ":latest"@)) ==> setup_step(
            SetupStage::ListingModels,
            target,
            SetupEventView::Models(names),
        ) == (SetupStage::Pulling, SetupActionView::Pull(
            "Downloading AI model \""@ + target + "\" (one-time)…"@,
        )),
{
    if exists|i: int| 0 <= i < names.len() && (#[trigger] names[i] == target || names[i] == target
        + ":latest"@) {
        let i = choose|i: int| 0 <= i < names.len() && (#[trigger] names[i] == target || names[i]
            == target + ":latest"@);
        assert(model_matches_spec(names[i], target));
        assert(lists_model(names, target));
    } else {
        assert(!lists_model(names, target)) by {
            if lists_model(names, target) {
                let i = choose|i: int| 0 <= i < names.len() && model_matches_spec(names[i], target);
                assert(names[i] == target || names[i] == target + ":latest"@);
            }
        }
    }
}

/// A progress line with a `total` and a `completed` count (and no error)
/// shows the percentage `completed * 100 / max(total, 1)` whenever it
/// differs from the one shown last, lower or higher, and records it as the
/// last one shown; an unchanged percentage shows nothing.
pub proof fn changed_percentage_is_shown(line: Seq<char>, last_pct: i64, target: Seq<char>)
    requires
        trim(line).len() > 0,
        crate::json::parse_result(trim(line)) is Some,
        as_text(member(crate::json::parse_result(trim(line)).unwrap(), "error"@)) is None,
        as_unsigned(member(crate::json::parse_result(trim(line)).unwrap(), "total"@)) is Some,
        as_unsigned(member(crate::json::parse_result(trim(line)).unwrap(), "completed"@)) is Some,
    ensures
        ({
            let v = crate::json::parse_result(trim(line)).unwrap();
            let total = as_unsigned(member(v, "total"@)).unwrap();
            let done = as_unsigned(member(v, "completed"@)).unwrap();
            let p = ((done.wrapping_mul(100) / (if total < 1 {
                1u64
            } else {
                total
            })) as u64) as i64;
            &&& p != last_pct ==> line_effect(line, last_pct, target) == LineEffect::Show(
                "Downloading \""@ + target + "\" — "@ + signed_decimal(p as int) + "%"@,
                p,
            )
            &&& p == last_pct ==> line_effect(line, last_pct, target) == LineEffect::Nothing
        }),
{
}

} // verus!
