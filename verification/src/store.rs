//! Question sets and the records kept beside them: settings, progress,
//! file names, the rules for new sets, attempts and the set listing.
use vstd::prelude::*;

use crate::question::{
    complete, extract_json_array, extract_outcome, extracted_questions_are_complete, question_views,
    Question, QuestionView,
};
use crate::text::{
    is_blank, sanitize_name, sanitized, strip_all_prefix_char, strip_prefix_all, to_owned, trim,
    trim_str,
};

verus! {

// ---------------------------------------------------------------------------
// Settings and progress
// ---------------------------------------------------------------------------

/// The user's settings.
pub struct Settings {
    /// The model named in the settings (may be empty).
    pub ollama_model: String,
}

impl Default for Settings {
    fn default() -> (r: Self)
        ensures
            r.ollama_model@ == Seq::<char>::empty(),
    {
        Settings { ollama_model: String::new() }
    }
}

/// Experience points and level.
#[derive(Clone, Copy, Debug, PartialEq, Eq, Structural)]
pub struct Progress {
    pub xp: u64,
    pub level: u32,
}

impl Progress {
    /// The progress of a new user: no experience, level 1.
    pub fn initial() -> (r: Self)
        ensures
            r.xp == 0,
            r.level == 1,
    {
        Progress { xp: 0, level: 1 }
    }
}

/// The text of a stored file without the byte-order marks it may start with.
pub fn strip_bom(raw: &str) -> (r: String)
    ensures
        r@ == strip_all_prefix_char(raw@, '\u{feff}'),
{
    strip_prefix_all(raw, '\u{feff}')
}

// ---------------------------------------------------------------------------
// Sets
// ---------------------------------------------------------------------------

/// One finished quiz attempt.
#[derive(Clone, Copy, Debug, PartialEq, Eq, Structural)]
pub struct Attempt {
    pub correct: usize,
    pub total: usize,
    pub at: u64,
}

/// A named set of questions for one exam, with the models that wrote it and
/// the attempts made at it.
pub struct QuestionSet {
    pub name: String,
    pub exam: String,
    pub providers: Vec<String>,
    pub created_at: u64,
    pub questions: Vec<Question>,
    pub attempts: Vec<Attempt>,
}

/// The contents of a question set.
pub struct SetView {
    pub name: Seq<char>,
    pub exam: Seq<char>,
    pub providers: Seq<Seq<char>>,
    pub created_at: u64,
    pub questions: Seq<QuestionView>,
    pub attempts: Seq<Attempt>,
}

impl View for QuestionSet {
    type V = SetView;

    open spec fn view(&self) -> SetView {
        SetView {
            name: self.name@,
            exam: self.exam@,
            providers: string_views(self.providers@),
            created_at: self.created_at,
            questions: question_views(self.questions@),
            attempts: self.attempts@,
        }
    }
}

/// A new set: the trimmed set name and exam, the models that wrote it, the
/// creation time, its questions, and no attempts yet.
pub open spec fn new_set_view(
    set_name: Seq<char>,
    exam: Seq<char>,
    providers: Seq<Seq<char>>,
    created_at: u64,
    questions: Seq<QuestionView>,
) -> SetView {
    SetView {
        name: trim(set_name),
        exam: trim(exam),
        providers,
        created_at,
        questions,
        attempts: Seq::empty(),
    }
}

/// The characters of each string of a list.
pub open spec fn string_views(v: Seq<String>) -> Seq<Seq<char>> {
    v.map_values(|s: String| s@)
}

/// The file that holds the set named `name`.
pub open spec fn set_file(name: Seq<char>) -> Seq<char> {
    sanitized(name) + ".json"@
}

/// The file name of the set named `name`: the sanitised name with `.json`.
pub fn set_file_name(name: &str) -> (r: String)
    ensures
        r@ == set_file(name@),
{
    let mut f = sanitize_name(name);
    f.append(".json");
    f
}

/// The error for a new set whose exam or name is blank, checked in that
/// order.
pub open spec fn names_error(exam: Seq<char>, set_name: Seq<char>) -> Option<Seq<char>> {
    if trim(exam).len() == 0 {
        Some("exam name is empty"@)
    } else if trim(set_name).len() == 0 {
        Some("set name is empty"@)
    } else {
        None
    }
}

/// Checks that a new set has an exam and a name.
pub fn check_set_names(exam: &str, set_name: &str) -> (r: Result<(), String>)
    ensures
        match r {
            Ok(_) => names_error(exam@, set_name@) is None,
            Err(e) => names_error(exam@, set_name@) == Some(e@),
        },
{
    if is_blank(exam) {
        return Err(String::from_str("exam name is empty"));
    }
    if is_blank(set_name) {
        return Err(String::from_str("set name is empty"));
    }
    Ok(())
}

/// The message for a new set whose name is taken.
pub fn set_exists_message(set_name: &str) -> (r: String)
    ensures
        r@ == "a question set named \""@ + set_name@ + "\" already exists — pick another name"@,
{
    let mut m = String::from_str("a question set named \"");
    m.append(set_name);
    m.append("\" already exists — pick another name");
    m
}

/// How many questions a generation asks for, and how many from each model.
#[derive(Clone, Copy, Debug, PartialEq, Eq, Structural)]
pub struct GenerationPlan {
    pub count: usize,
    pub per_model: usize,
}

/// `a / b` rounded up.
pub open spec fn div_ceil(a: int, b: int) -> int {
    if a % b == 0 {
        a / b
    } else {
        a / b + 1
    }
}

/// The question count kept between 1 and 100.
pub open spec fn clamp_count(count: int) -> int {
    if count < 1 {
        1
    } else if count > 100 {
        100
    } else {
        count
    }
}

/// Checks a generation request and plans it: the exam and set name must
/// not be blank and at least one model must be chosen (checked in that
/// order); the count is kept between 1 and 100 and split over the models,
/// rounded up.
pub fn plan_generation(exam: &str, set_name: &str, count: usize, models: usize) -> (r: Result<
    GenerationPlan,
    String,
>)
    ensures
        match r {
            Ok(p) => names_error(exam@, set_name@) is None && models > 0 && p.count == clamp_count(
                count as int,
            ) && p.per_model == div_ceil(p.count as int, models as int) && p.per_model * models
                >= p.count && (p.per_model - 1) * models < p.count,
            Err(e) => match names_error(exam@, set_name@) {
                Some(m) => e@ == m,
                None => models == 0 && e@ == "select at least one AI model"@,
            },
        },
{
    check_set_names(exam, set_name)?;
    if models == 0 {
        return Err(String::from_str("select at least one AI model"));
    }
    let c: usize = if count < 1 {
        1
    } else if count > 100 {
        100
    } else {
        count
    };
    let per: usize = if c % models == 0 {
        c / models
    } else {
        c / models + 1
    };
    proof {
        lemma_div_ceil_bounds(c as int, models as int);
    }
    Ok(GenerationPlan { count: c, per_model: per })
}

proof fn lemma_div_ceil_bounds(a: int, b: int)
    requires
        a >= 1,
        b >= 1,
    ensures
        div_ceil(a, b) * b >= a,
        (div_ceil(a, b) - 1) * b < a,
{
    let q = a / b;
    let r = a % b;
    assert(a == q * b + r && 0 <= r < b) by (nonlinear_arith)
        requires
            b >= 1,
            q == a / b,
            r == a % b,
    ;
    if r == 0 {
        assert(q * b >= a);
        assert((q - 1) * b < a) by (nonlinear_arith)
            requires
                a == q * b,
                b >= 1,
        ;
    } else {
        assert((q + 1) * b >= a) by (nonlinear_arith)
            requires
                a == q * b + r,
                r < b,
        ;
        assert(q * b < a);
    }
}

/// `parts` joined with `sep` between each two.
pub open spec fn join(parts: Seq<Seq<char>>, sep: Seq<char>) -> Seq<char>
    decreases parts.len(),
{
    if parts.len() == 0 {
        Seq::empty()
    } else if parts.len() == 1 {
        parts[0]
    } else {
        join(parts.drop_last(), sep) + sep + parts.last()
    }
}

/// The questions of the models that succeeded, in order, and the errors of
/// the others as `"<model>: <error>"`, in order.
pub open spec fn gathered(results: Seq<(String, Result<Vec<Question>, String>)>) -> (
    Seq<QuestionView>,
    Seq<Seq<char>>,
)
    decreases results.len(),
{
    if results.len() == 0 {
        (Seq::empty(), Seq::empty())
    } else {
        let (qs, errs) = gathered(results.drop_last());
        let (model, outcome) = results.last();
        match outcome {
            Ok(v) => (qs + question_views(v@), errs),
            Err(e) => (qs, errs.push(model@ + ": "@ + e@)),
        }
    }
}

/// What a generation gives from the results of its models: the first
/// `count` questions, or, when no model gave any, the joined errors.
pub open spec fn combined(results: Seq<(String, Result<Vec<Question>, String>)>, count: int) -> Result<
    Seq<QuestionView>,
    Seq<char>,
> {
    let (qs, errs) = gathered(results);
    if qs.len() == 0 {
        Err("all models failed — "@ + join(errs, " | "@))
    } else if count < qs.len() {
        Ok(qs.take(count))
    } else {
        Ok(qs)
    }
}

/// Puts together the questions that the models of one generation returned.
pub fn combine_results(results: Vec<(String, Result<Vec<Question>, String>)>, count: usize) -> (r:
    Result<Vec<Question>, String>)
    ensures
        match r {
            Ok(qs) => combined(results@, count as int) == Ok::<Seq<QuestionView>, Seq<char>>(
                question_views(qs@),
            ),
            Err(e) => combined(results@, count as int) == Err::<Seq<QuestionView>, Seq<char>>(
                e@,
            ),
        },
{
    let ghost all = results@;
    let mut questions: Vec<Question> = Vec::new();
    let mut joined = String::new();
    let mut any_error = false;
    let ghost mut errs: Seq<Seq<char>> = Seq::empty();
    for item in it: results
        invariant
            it.seq() == all,
            gathered(all.take(it.index() as int)) == (question_views(questions@), errs),
            joined@ == join(errs, " | "@),
            any_error == (errs.len() > 0),
    {
        let ghost before_q = question_views(questions@);
        let ghost i = it.index();
        proof {
            assert(all.take(i + 1).drop_last() =~= all.take(i as int));
            assert(all.take(i + 1).last() == all[i as int]);
        }
        let (model, outcome) = item;
        match outcome {
            Ok(mut qs) => {
                let ghost added = question_views(qs@);
                questions.append(&mut qs);
                proof {
                    assert(question_views(questions@) =~= before_q + added);
                }
            },
            Err(e) => {
                let mut entry = to_owned(model.as_str());
                entry.append(": ");
                entry.append(e.as_str());
                if any_error {
                    joined.append(" | ");
                }
                joined.append(entry.as_str());
                proof {
                    let old_errs = errs;
                    errs = errs.push(entry@);
                    assert(errs.drop_last() =~= old_errs);
                    if old_errs.len() == 0 {
                        assert(joined@ =~= join(errs, " | "@));
                    }
                }
                any_error = true;
            },
        }
    }
    proof {
        assert(all.take(all.len() as int) =~= all);
    }
    if questions.len() == 0 {
        let mut m = String::from_str("all models failed — ");
        m.append(joined.as_str());
        return Err(m);
    }
    if count < questions.len() {
        questions.truncate(count);
        proof {
            assert(question_views(questions@) =~= gathered(all).0.take(count as int));
        }
    }
    Ok(questions)
}

/// A new set: the trimmed set name and exam, the models that wrote it, the
/// creation time, its questions, and no attempts yet.
pub fn new_question_set(
    set_name: &str,
    exam: &str,
    providers: Vec<String>,
    created_at: u64,
    questions: Vec<Question>,
) -> (r: QuestionSet)
    ensures
        r.name@ == trim(set_name@),
        r.exam@ == trim(exam@),
        r.providers@ == providers@,
        r.created_at == created_at,
        r.questions@ == questions@,
        r.attempts@ == Seq::<Attempt>::empty(),
{
    QuestionSet {
        name: trim_str(set_name),
        exam: trim_str(exam),
        providers,
        created_at,
        questions,
        attempts: Vec::new(),
    }
}

/// The set that a generation makes from its models' results: the combined
/// questions (see `combined`) in a new set that lists the models asked, or
/// the error when no model gave a question.
pub open spec fn generated(
    exam: Seq<char>,
    set_name: Seq<char>,
    models: Seq<Seq<char>>,
    results: Seq<(String, Result<Vec<Question>, String>)>,
    count: int,
    created_at: u64,
) -> Result<SetView, Seq<char>> {
    match combined(results, count) {
        Ok(qs) => Ok(new_set_view(set_name, exam, models, created_at, qs)),
        Err(e) => Err(e),
    }
}

/// The new set of a generation, made from the results of the models asked
/// (see `generated`).
pub fn generated_set(
    exam: &str,
    set_name: &str,
    models: Vec<String>,
    results: Vec<(String, Result<Vec<Question>, String>)>,
    count: usize,
    created_at: u64,
) -> (r: Result<QuestionSet, String>)
    ensures
        match r {
            Ok(set) => generated(
                exam@,
                set_name@,
                string_views(models@),
                results@,
                count as int,
                created_at,
            ) == Ok::<SetView, Seq<char>>(set@),
            Err(e) => generated(
                exam@,
                set_name@,
                string_views(models@),
                results@,
                count as int,
                created_at,
            ) == Err::<SetView, Seq<char>>(e@),
        },
{
    match combine_results(results, count) {
        Ok(questions) => Ok(new_question_set(set_name, exam, models, created_at, questions)),
        Err(e) => Err(e),
    }
}

/// The set made from a pasted reply (see `imported_set`): its questions in
/// a new set whose provider is `imported`, or the reading error with a hint.
pub open spec fn imported(
    exam: Seq<char>,
    set_name: Seq<char>,
    raw_text: Seq<char>,
    created_at: u64,
) -> Result<SetView, Seq<char>> {
    match extract_outcome(raw_text) {
        Ok(qs) => Ok(new_set_view(set_name, exam, seq!["imported"@], created_at, qs)),
        Err(m) => Err(import_error(m)),
    }
}

/// The message for a pasted reply whose questions cannot be read.
pub open spec fn import_error(e: Seq<char>) -> Seq<char> {
    e + " — make sure you pasted the AI's full JSON reply (it must be a JSON array of question objects)"@
}

/// A set made from a model reply that the user pasted in: its questions, or
/// the reading error with a hint; the set lists `imported` as its provider.
pub fn imported_set(exam: &str, set_name: &str, raw_text: &str, created_at: u64) -> (r: Result<
    QuestionSet,
    String,
>)
    ensures
        match r {
            Ok(set) => imported(exam@, set_name@, raw_text@, created_at) == Ok::<
                SetView,
                Seq<char>,
            >(set@),
            Err(e) => imported(exam@, set_name@, raw_text@, created_at) == Err::<
                SetView,
                Seq<char>,
            >(e@),
        },
        r matches Ok(set) ==> extract_outcome(raw_text@) == Ok::<Seq<QuestionView>, Seq<char>>(
            question_views(set.questions@),
        ),
{
    match extract_json_array(raw_text) {
        Err(e) => {
            let mut m = e;
            m.append(
                " — make sure you pasted the AI's full JSON reply (it must be a JSON array of question objects)",
            );
            Err(m)
        },
        Ok(questions) => {
            let mut providers: Vec<String> = Vec::new();
            providers.push(String::from_str("imported"));
            assert(string_views(providers@) =~= seq!["imported"@]);
            Ok(new_question_set(set_name, exam, providers, created_at, questions))
        },
    }
}

/// `s` with one more attempt recorded at its end.
pub open spec fn with_attempt(s: SetView, correct: usize, total: usize, at: u64) -> SetView {
    SetView {
        name: s.name,
        exam: s.exam,
        providers: s.providers,
        created_at: s.created_at,
        questions: s.questions,
        attempts: s.attempts.push(Attempt { correct, total, at }),
    }
}

impl QuestionSet {
    /// Records a finished attempt at the end of the set's attempts and gives
    /// back all of them; nothing else of the set changes.
    pub fn record_attempt(&mut self, correct: usize, total: usize, at: u64) -> (r: Vec<Attempt>)
        ensures
            final(self)@ == with_attempt(old(self)@, correct, total, at),
            final(self).attempts@ == old(self).attempts@.push(Attempt { correct, total, at }),
            r@ == final(self).attempts@,
            final(self).name == old(self).name,
            final(self).exam == old(self).exam,
            final(self).providers == old(self).providers,
            final(self).created_at == old(self).created_at,
            final(self).questions == old(self).questions,
    {
        self.attempts.push(Attempt { correct, total, at });
        copy_attempts(&self.attempts)
    }
}

/// A copy of a list of attempts.
pub fn copy_attempts(v: &Vec<Attempt>) -> (r: Vec<Attempt>)
    ensures
        r@ == v@,
{
    let mut out: Vec<Attempt> = Vec::new();
    let mut i: usize = 0;
    while i < v.len()
        invariant
            i <= v@.len(),
            out@ == v@.take(i as int),
        decreases v.len() - i,
    {
        out.push(v[i]);
        assert(v@.take(i + 1) =~= v@.take(i as int).push(v@[i as int]));
        i = i + 1;
    }
    assert(v@.take(v@.len() as int) =~= v@);
    out
}

// ---------------------------------------------------------------------------
// The set listing
// ---------------------------------------------------------------------------

/// What the set list shows of a set.
pub struct SetSummary {
    pub name: String,
    pub exam: String,
    pub created_at: u64,
    pub question_count: usize,
    pub attempts: Vec<Attempt>,
    pub providers: Vec<String>,
}

/// The summary of a set: its name, exam, creation time, number of
/// questions, attempts and models.
pub fn summarize(set: QuestionSet) -> (r: SetSummary)
    ensures
        r.name == set.name,
        r.exam == set.exam,
        r.created_at == set.created_at,
        r.question_count == set.questions@.len(),
        r.attempts == set.attempts,
        r.providers == set.providers,
{
    let n = set.questions.len();
    SetSummary {
        name: set.name,
        exam: set.exam,
        created_at: set.created_at,
        question_count: n,
        attempts: set.attempts,
        providers: set.providers,
    }
}

/// Newest first: no summary is older than one after it.
pub open spec fn newest_first(s: Seq<SetSummary>) -> bool {
    forall|i: int, j: int| 0 <= i < j < s.len() ==> s[i].created_at >= s[j].created_at
}

/// The summaries created at time `t`, in order.
pub open spec fn created_at_time(s: Seq<SetSummary>, t: u64) -> Seq<SetSummary> {
    s.filter(at_time(t))
}

/// Whether a summary was created at time `t`.
pub open spec fn at_time(t: u64) -> spec_fn(SetSummary) -> bool {
    |x: SetSummary| x.created_at == t
}

proof fn lemma_filter_none(s: Seq<SetSummary>, t: u64)
    requires
        forall|i: int| 0 <= i < s.len() ==> s[i].created_at != t,
    ensures
        created_at_time(s, t) == Seq::<SetSummary>::empty(),
    decreases s.len(),
{
    reveal(Seq::filter);
    if s.len() > 0 {
        lemma_filter_none(s.drop_last(), t);
    }
}

/// Inserting `x` after every summary at least as new keeps the order and
/// adds `x` last among those of its time.
proof fn lemma_insert_summary(out: Seq<SetSummary>, j: int, x: SetSummary)
    requires
        0 <= j <= out.len(),
        newest_first(out),
        forall|k: int| 0 <= k < j ==> out[k].created_at >= x.created_at,
        forall|k: int| j <= k < out.len() ==> out[k].created_at < x.created_at,
    ensures
        newest_first(out.insert(j, x)),
        forall|t: u64|
            #![trigger created_at_time(out.insert(j, x), t)]
            created_at_time(out.insert(j, x), t) == if t == x.created_at {
                created_at_time(out, t).push(x)
            } else {
                created_at_time(out, t)
            },
{
    let n = out.insert(j, x);
    assert(n =~= out.take(j) + seq![x] + out.skip(j));
    assert(out =~= out.take(j) + out.skip(j));
    assert forall|t: u64| #[trigger]
        created_at_time(n, t) == if t == x.created_at {
            created_at_time(out, t).push(x)
        } else {
            created_at_time(out, t)
        } by {
        let p = at_time(t);
        Seq::filter_distributes_over_add(out.take(j) + seq![x], out.skip(j), p);
        Seq::filter_distributes_over_add(out.take(j), seq![x], p);
        Seq::filter_distributes_over_add(out.take(j), out.skip(j), p);
        reveal(Seq::filter);
        assert(seq![x].drop_last() =~= Seq::<SetSummary>::empty());
        Seq::<SetSummary>::empty().lemma_filter_push(x, p);
        assert(Seq::<SetSummary>::empty().push(x) =~= seq![x]);
        assert(Seq::<SetSummary>::empty().filter(p) =~= Seq::<SetSummary>::empty());
        assert(seq![x].filter(p) == if t == x.created_at { seq![x] } else { Seq::<SetSummary>::empty() });
        if t == x.created_at {
            lemma_filter_none(out.skip(j), t);
            assert(created_at_time(out, t) =~= created_at_time(out.take(j), t));
            assert(created_at_time(n, t) =~= created_at_time(out.take(j), t).push(x));
        } else {
            assert(created_at_time(n, t) =~= created_at_time(out.take(j), t) + created_at_time(
                out.skip(j),
                t,
            ));
        }
    }
}

/// Sorts set summaries newest first, keeping the given order among sets
/// created at the same time (as a stable sort does).
pub fn sort_newest_first(v: Vec<SetSummary>) -> (r: Vec<SetSummary>)
    ensures
        newest_first(r@),
        r@.len() == v@.len(),
        forall|t: u64| #[trigger] created_at_time(r@, t) == created_at_time(v@, t),
{
    let ghost all = v@;
    let mut out: Vec<SetSummary> = Vec::new();
    for x in it: v
        invariant
            it.seq() == all,
            newest_first(out@),
            out@.len() == it.index(),
            forall|t: u64| #[trigger]
                created_at_time(out@, t) == created_at_time(all.take(it.index() as int), t),
    {
        let ghost i = it.index();
        let mut j: usize = 0;
        while j < out.len() && out[j].created_at >= x.created_at
            invariant
                j <= out@.len(),
                forall|k: int| 0 <= k < j ==> out@[k].created_at >= x.created_at,
            decreases out.len() - j,
        {
            j = j + 1;
        }
        proof {
            assert forall|k: int| j <= k < out@.len() implies out@[k].created_at < x.created_at by {
                if j < out@.len() {
                    assert(out@[j as int].created_at < x.created_at);
                    assert(out@[j as int].created_at >= out@[k].created_at);
                }
            }
            lemma_insert_summary(out@, j as int, x);
            assert(all.take(i + 1) =~= all.take(i as int).push(x));
            assert forall|t: u64| #[trigger]
                created_at_time(all.take(i + 1), t) == if t == x.created_at {
                    created_at_time(all.take(i as int), t).push(x)
                } else {
                    created_at_time(all.take(i as int), t)
                } by {
                all.take(i as int).lemma_filter_push(x, at_time(t));
            }
        }
        out.insert(j, x);
    }
    proof {
        assert(all.take(all.len() as int) =~= all);
    }
    out
}

/// A generation that succeeds gives at least one question and never more
/// than asked for.
pub proof fn combined_is_bounded(results: Seq<(String, Result<Vec<Question>, String>)>, count: int)
    requires
        count >= 1,
    ensures
        combined(results, count) matches Ok(qs) ==> 0 < qs.len() <= count,
{
}

/// Every question of a model's result is complete (an error has none).
pub open spec fn outcome_complete(outcome: Result<Vec<Question>, String>) -> bool {
    match outcome {
        Ok(v) => forall|j: int| 0 <= j < v@.len() ==> complete(#[trigger] question_views(v@)[j]),
        Err(_) => true,
    }
}

/// Every question that the models gave is complete.
pub open spec fn results_complete(results: Seq<(String, Result<Vec<Question>, String>)>) -> bool {
    forall|i: int| 0 <= i < results.len() ==> outcome_complete(#[trigger] results[i].1)
}

proof fn gathered_complete(results: Seq<(String, Result<Vec<Question>, String>)>)
    requires
        results_complete(results),
    ensures
        forall|i: int|
            0 <= i < gathered(results).0.len() ==> complete(#[trigger] gathered(results).0[i]),
    decreases results.len(),
{
    if results.len() > 0 {
        let rest = results.drop_last();
        assert forall|i: int| 0 <= i < rest.len() implies outcome_complete(#[trigger] rest[i].1) by {
            assert(rest[i] == results[i]);
        }
        gathered_complete(rest);
        let (qs, errs) = gathered(rest);
        let last = results[results.len() - 1];
        assert(last == results.last());
        assert(outcome_complete(results[results.len() - 1].1));
        if let Ok(v) = last.1 {
            let added = question_views(v@);
            assert forall|i: int| 0 <= i < (qs + added).len() implies complete(
                #[trigger] (qs + added)[i],
            ) by {
                if i >= qs.len() {
                    assert((qs + added)[i] == added[i - qs.len()]);
                }
            }
        }
    }
}

/// A generation that succeeds makes a set named by the trimmed set name, for
/// the trimmed exam, listing the models asked, created at the given time,
/// with no attempts and with at least one and at most `count` questions;
/// when every question the models gave is complete, so is every question of
/// the set.
pub proof fn generated_set_law(
    exam: Seq<char>,
    set_name: Seq<char>,
    models: Seq<Seq<char>>,
    results: Seq<(String, Result<Vec<Question>, String>)>,
    count: int,
    created_at: u64,
)
    requires
        count >= 1,
    ensures
        generated(exam, set_name, models, results, count, created_at) matches Ok(s) ==> {
            &&& s.questions == if count < gathered(results).0.len() {
                gathered(results).0.take(count)
            } else {
                gathered(results).0
            }
            &&& s.name == trim(set_name)
            &&& s.exam == trim(exam)
            &&& s.providers == models
            &&& s.created_at == created_at
            &&& s.attempts.len() == 0
            &&& 1 <= s.questions.len() <= count
            &&& results_complete(results) ==> forall|i: int|
                0 <= i < s.questions.len() ==> complete(#[trigger] s.questions[i])
        },
{
    combined_is_bounded(results, count);
    if results_complete(results) {
        gathered_complete(results);
        let qs = gathered(results).0;
        if count < qs.len() {
            assert forall|i: int| 0 <= i < qs.take(count).len() implies complete(
                #[trigger] qs.take(count)[i],
            ) by {
                assert(qs.take(count)[i] == qs[i]);
            }
        }
    }
}

/// An import that succeeds makes a set named by the trimmed set name, for
/// the trimmed exam, whose only provider is `imported`, created at the given
/// time, with no attempts and with at least one question, each complete.
pub proof fn imported_set_law(
    exam: Seq<char>,
    set_name: Seq<char>,
    raw_text: Seq<char>,
    created_at: u64,
)
    ensures
        imported(exam, set_name, raw_text, created_at) matches Ok(s) ==> {
            &&& extract_outcome(raw_text) == Ok::<Seq<QuestionView>, Seq<char>>(s.questions)
            &&& s.name == trim(set_name)
            &&& s.exam == trim(exam)
            &&& s.providers == seq!["imported"@]
            &&& s.created_at == created_at
            &&& s.attempts.len() == 0
            &&& s.questions.len() > 0
            &&& forall|i: int| 0 <= i < s.questions.len() ==> complete(#[trigger] s.questions[i])
        },
        (imported(exam, set_name, raw_text, created_at) is Ok) == (extract_outcome(raw_text) is Ok),
{
    extracted_questions_are_complete(raw_text);
}

/// Recording an attempt adds it after the earlier ones and changes nothing
/// else of the set, so the set keeps its file; two attempts recorded in turn
/// stand in that order.
pub proof fn recorded_attempt_law(
    s: SetView,
    correct: usize,
    total: usize,
    at: u64,
    correct2: usize,
    total2: usize,
    at2: u64,
)
    ensures
        with_attempt(s, correct, total, at).attempts == s.attempts.push(
            Attempt { correct, total, at },
        ),
        with_attempt(s, correct, total, at).attempts.len() == s.attempts.len() + 1,
        set_file(with_attempt(s, correct, total, at).name) == set_file(s.name),
        with_attempt(s, correct, total, at).exam == s.exam,
        with_attempt(s, correct, total, at).providers == s.providers,
        with_attempt(s, correct, total, at).created_at == s.created_at,
        with_attempt(s, correct, total, at).questions == s.questions,
        with_attempt(with_attempt(s, correct, total, at), correct2, total2, at2).attempts
            == s.attempts + seq![
            Attempt { correct, total, at },
            Attempt { correct: correct2, total: total2, at: at2 },
        ],
{
    assert(with_attempt(with_attempt(s, correct, total, at), correct2, total2, at2).attempts
        =~= s.attempts + seq![
        Attempt { correct, total, at },
        Attempt { correct: correct2, total: total2, at: at2 },
    ]);
}

} // verus!
