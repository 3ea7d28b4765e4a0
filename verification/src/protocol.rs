//! Jev's typed decision protocol: the prompt, the request a search sends, and the checks its answer must pass
//! before it becomes an assessment.

use vstd::prelude::*;

use crate::json::{json_string, push_json_string};
use crate::outcome::Outcome;
use crate::source::{Focus, Source, MAX_QUERY_BYTES};
use crate::target::LineRange;
use crate::text::{blank, decimal, is_blank, lemma_occurs, occurs_in, push_decimal, str_eq};

verus! {

broadcast use vstd::string::group_string_axioms;

/// The largest encoded request, in bytes.
pub const MAX_REQUEST_BYTES: usize = 98304;

/// The largest response body, in bytes.
pub const MAX_RESPONSE_BYTES: usize = 65536;

/// The instructions and decision criteria sent with every request.
#[derive(Clone, Debug)]
pub struct Prompt {
    pub task: String,
    /// Added to the instructions only when a line range narrows the search.
    pub focus: String,
    pub criteria: Criteria,
}

/// What each answer means.
#[derive(Clone, Debug)]
pub struct Criteria {
    pub matches: String,
    pub no_match: String,
    pub uncertain: String,
}

/// No field of the prompt is empty or only whitespace.
pub open spec fn prompt_complete(prompt: Prompt) -> bool {
    &&& !is_blank(prompt.task@)
    &&& !is_blank(prompt.focus@)
    &&& !is_blank(prompt.criteria.matches@)
    &&& !is_blank(prompt.criteria.no_match@)
    &&& !is_blank(prompt.criteria.uncertain@)
}

/// Why the protocol refused a prompt, a request or an answer.
#[derive(Clone, Debug, PartialEq, Eq)]
pub enum JevError {
    IncompletePrompt,
    EmptyKey,
    QueryBounds,
    RequestTooLarge,
    HttpStatus { code: u16 },
    ResponseTooLarge,
    InvalidResponse,
    DifferentModel,
    UnexpectedAnswers,
    MissingAssessment,
    NotChoice,
    InvalidConfidence,
    InvalidLabels,
    InvalidProbabilities,
    SumNotOne,
    MissingChosen,
    ChoiceNotHighest,
}

pub open spec fn jev_error_message(e: JevError) -> Seq<char> {
    match e {
        JevError::IncompletePrompt => "prompt.json fields must not be empty"@,
        JevError::EmptyKey => "API key is empty"@,
        JevError::QueryBounds => "query must contain 1–8192 bytes"@,
        JevError::RequestTooLarge => "encoded request exceeds 98304 bytes; context was not truncated"@,
        JevError::HttpStatus { code } => "Jev returned HTTP "@ + decimal(code as nat)
            + "; no assessment was recorded"@,
        JevError::ResponseTooLarge => "Jev response exceeds 65536 bytes"@,
        JevError::InvalidResponse => "invalid Jev response"@,
        JevError::DifferentModel => "Jev returned a different model than requested"@,
        JevError::UnexpectedAnswers => "Jev returned an unexpected set of answers"@,
        JevError::MissingAssessment => "Jev omitted the assessment"@,
        JevError::NotChoice => "Jev returned a non-choice assessment"@,
        JevError::InvalidConfidence => "invalid confidence"@,
        JevError::InvalidLabels => "invalid probability labels"@,
        JevError::InvalidProbabilities => "invalid probability values"@,
        JevError::SumNotOne => "probabilities do not sum to one"@,
        JevError::MissingChosen => "missing chosen probability"@,
        JevError::ChoiceNotHighest => "choice is not the highest probability"@,
    }
}

impl JevError {
    pub fn message(&self) -> (m: String)
        ensures
            m@ == jev_error_message(*self),
    {
        match self {
            JevError::IncompletePrompt => String::from_str("prompt.json fields must not be empty"),
            JevError::EmptyKey => String::from_str("API key is empty"),
            JevError::QueryBounds => String::from_str("query must contain 1–8192 bytes"),
            JevError::RequestTooLarge => String::from_str(
                "encoded request exceeds 98304 bytes; context was not truncated",
            ),
            JevError::HttpStatus { code } => {
                let mut m = String::from_str("Jev returned HTTP ");
                push_decimal(&mut m, *code as usize);
                m.append("; no assessment was recorded");
                m
            },
            JevError::ResponseTooLarge => String::from_str("Jev response exceeds 65536 bytes"),
            JevError::InvalidResponse => String::from_str("invalid Jev response"),
            JevError::DifferentModel => String::from_str("Jev returned a different model than requested"),
            JevError::UnexpectedAnswers => String::from_str("Jev returned an unexpected set of answers"),
            JevError::MissingAssessment => String::from_str("Jev omitted the assessment"),
            JevError::NotChoice => String::from_str("Jev returned a non-choice assessment"),
            JevError::InvalidConfidence => String::from_str("invalid confidence"),
            JevError::InvalidLabels => String::from_str("invalid probability labels"),
            JevError::InvalidProbabilities => String::from_str("invalid probability values"),
            JevError::SumNotOne => String::from_str("probabilities do not sum to one"),
            JevError::MissingChosen => String::from_str("missing chosen probability"),
            JevError::ChoiceNotHighest => String::from_str("choice is not the highest probability"),
        }
    }
}

/// A prompt is used only when none of its fields is blank.
pub fn check_prompt(prompt: Prompt) -> (r: Result<Prompt, JevError>)
    ensures
        prompt_complete(prompt) ==> r == Ok::<Prompt, JevError>(prompt),
        !prompt_complete(prompt) ==> r == Err::<Prompt, JevError>(JevError::IncompletePrompt),
{
    if blank(prompt.task.as_str()) || blank(prompt.focus.as_str()) || blank(
        prompt.criteria.matches.as_str(),
    ) || blank(prompt.criteria.no_match.as_str()) || blank(prompt.criteria.uncertain.as_str()) {
        return Err(JevError::IncompletePrompt);
    }
    Ok(prompt)
}

/// An API key is sent only when it is not blank.
pub fn check_key(key: &str) -> (r: Result<(), JevError>)
    ensures
        r == (if is_blank(key@) {
            Err(JevError::EmptyKey)
        } else {
            Ok::<(), JevError>(())
        }),
{
    if blank(key) {
        Err(JevError::EmptyKey)
    } else {
        Ok(())
    }
}

/// A query is sent only when it is not blank and holds at most `MAX_QUERY_BYTES` bytes.
pub fn check_query(query: &str) -> (r: Result<(), JevError>)
    ensures
        r == (if is_blank(query@) || vstd::utf8::encode_utf8(query@).len() > MAX_QUERY_BYTES {
            Err(JevError::QueryBounds)
        } else {
            Ok::<(), JevError>(())
        }),
{
    if blank(query) || query.as_bytes().len() > MAX_QUERY_BYTES {
        Err(JevError::QueryBounds)
    } else {
        Ok(())
    }
}

/// An encoded request is sent only when it holds at most `MAX_REQUEST_BYTES` bytes; context is never
/// truncated to fit.
pub fn check_request(body: &str) -> (r: Result<(), JevError>)
    ensures
        r == (if vstd::utf8::encode_utf8(body@).len() > MAX_REQUEST_BYTES {
            Err(JevError::RequestTooLarge)
        } else {
            Ok::<(), JevError>(())
        }),
{
    if body.as_bytes().len() > MAX_REQUEST_BYTES {
        Err(JevError::RequestTooLarge)
    } else {
        Ok(())
    }
}

/// The bytes received once a chunk of `chunk` bytes follows `received`, while they stay within
/// `MAX_RESPONSE_BYTES`.
pub fn accept_chunk(received: usize, chunk: usize) -> (r: Result<usize, JevError>)
    ensures
        received + chunk <= MAX_RESPONSE_BYTES ==> r == Ok::<usize, JevError>((received + chunk) as usize),
        received + chunk > MAX_RESPONSE_BYTES ==> r == Err::<usize, JevError>(JevError::ResponseTooLarge),
{
    match received.checked_add(chunk) {
        Some(total) => if total <= MAX_RESPONSE_BYTES {
            Ok(total)
        } else {
            Err(JevError::ResponseTooLarge)
        },
        None => Err(JevError::ResponseTooLarge),
    }
}

/// The criteria object, keys in order.
pub open spec fn criteria_json(c: Criteria) -> Seq<char> {
    "{\"match\":"@ + json_string(c.matches@) + ",\"no_match\":"@ + json_string(c.no_match@)
        + ",\"uncertain\":"@ + json_string(c.uncertain@) + "}"@
}

/// The instructions object: the focus rule only for a ranged search, then the query and the task.
pub open spec fn instructions_json(prompt: Prompt, query: Seq<char>, focused: bool) -> Seq<char> {
    if focused {
        "{\"focus\":"@ + json_string(prompt.focus@) + ",\"query\":"@ + json_string(query)
            + ",\"task\":"@ + json_string(prompt.task@) + "}"@
    } else {
        "{\"query\":"@ + json_string(query) + ",\"task\":"@ + json_string(prompt.task@) + "}"@
    }
}

/// The focus object of a ranged search: its lines and their text.
pub open spec fn focus_json(lines: LineRange, text: Seq<char>) -> Seq<char> {
    "{\"end_line\":"@ + decimal(lines.end as nat) + ",\"start_line\":"@ + decimal(lines.start as nat)
        + ",\"text\":"@ + json_string(text) + "}"@
}

/// The state object: the focus (for a ranged search), the path and the whole file.
pub open spec fn state_json(source: Source) -> Seq<char> {
    match source.focus {
        Some(focus) => "{\"focus\":"@ + focus_json(focus.lines, focus.text@) + ",\"path\":"@
            + json_string(source.path@) + ",\"source\":"@ + json_string(source.text@) + "}"@,
        None => "{\"path\":"@ + json_string(source.path@) + ",\"source\":"@ + json_string(source.text@)
            + "}"@,
    }
}

/// The request body: the model, one `choice` question named `match`, and the state it is asked about.
pub open spec fn request_json(model: Seq<char>, prompt: Prompt, query: Seq<char>, source: Source) -> Seq<
    char,
> {
    "{\"model\":"@ + json_string(model) + ",\"questions\":{\"match\":{\"criteria\":"@ + criteria_json(
        prompt.criteria,
    ) + ",\"instructions\":"@ + instructions_json(prompt, query, source.focus is Some)
        + ",\"type\":\"choice\"}},\"state\":"@ + state_json(source) + "}"@
}

fn criteria_text(c: &Criteria) -> (s: String)
    ensures
        s@ == criteria_json(*c),
{
    let mut s = String::from_str("{\"match\":");
    push_json_string(&mut s, c.matches.as_str());
    s.append(",\"no_match\":");
    push_json_string(&mut s, c.no_match.as_str());
    s.append(",\"uncertain\":");
    push_json_string(&mut s, c.uncertain.as_str());
    s.append("}");
    s
}

fn instructions_text(prompt: &Prompt, query: &str, focused: bool) -> (s: String)
    ensures
        s@ == instructions_json(*prompt, query@, focused),
{
    if focused {
        let mut s = String::from_str("{\"focus\":");
        push_json_string(&mut s, prompt.focus.as_str());
        s.append(",\"query\":");
        push_json_string(&mut s, query);
        s.append(",\"task\":");
        push_json_string(&mut s, prompt.task.as_str());
        s.append("}");
        s
    } else {
        let mut s = String::from_str("{\"query\":");
        push_json_string(&mut s, query);
        s.append(",\"task\":");
        push_json_string(&mut s, prompt.task.as_str());
        s.append("}");
        s
    }
}

fn focus_text(focus: &Focus) -> (s: String)
    ensures
        s@ == focus_json(focus.lines, focus.text@),
{
    let mut s = String::from_str("{\"end_line\":");
    push_decimal(&mut s, focus.lines.end);
    s.append(",\"start_line\":");
    push_decimal(&mut s, focus.lines.start);
    s.append(",\"text\":");
    push_json_string(&mut s, focus.text.as_str());
    s.append("}");
    s
}

fn state_text(source: &Source) -> (s: String)
    ensures
        s@ == state_json(*source),
{
    match &source.focus {
        Some(focus) => {
            let mut s = String::from_str("{\"focus\":");
            let f = focus_text(focus);
            s.append(f.as_str());
            s.append(",\"path\":");
            push_json_string(&mut s, source.path.as_str());
            s.append(",\"source\":");
            push_json_string(&mut s, source.text.as_str());
            s.append("}");
            s
        },
        None => {
            let mut s = String::from_str("{\"path\":");
            push_json_string(&mut s, source.path.as_str());
            s.append(",\"source\":");
            push_json_string(&mut s, source.text.as_str());
            s.append("}");
            s
        },
    }
}

/// The request body for one source. A ranged search sends the whole file plus the focus lines as text,
/// because models count lines poorly; a whole-file search sends only the path and source, with no focus rule.
pub fn request(model: &str, prompt: &Prompt, query: &str, source: &Source) -> (body: String)
    ensures
        body@ == request_json(model@, *prompt, query@, *source),
{
    let mut body = String::from_str("{\"model\":");
    push_json_string(&mut body, model);
    body.append(",\"questions\":{\"match\":{\"criteria\":");
    let criteria = criteria_text(&prompt.criteria);
    body.append(criteria.as_str());
    body.append(",\"instructions\":");
    let instructions = instructions_text(prompt, query, source.focus.is_some());
    body.append(instructions.as_str());
    body.append(",\"type\":\"choice\"}},\"state\":");
    let state = state_text(source);
    body.append(state.as_str());
    body.append("}");
    body
}

/// `ranged` is `whole` with `first` inserted at one place and `second` at the same place or a later one.
pub open spec fn inserts_two(whole: Seq<char>, ranged: Seq<char>, first: Seq<char>, second: Seq<char>) -> bool {
    exists|i: int, j: int|
        #![trigger whole.subrange(i, j)]
        0 <= i <= j <= whole.len() && ranged == whole.take(i) + first + whole.subrange(i, j) + second
            + whole.skip(j)
}

/// The instructions object is `{`, the focus rule when focused, then the query and the task.
proof fn lemma_instructions_split(prompt: Prompt, query: Seq<char>)
    ensures
        instructions_json(prompt, query, false) == "{"@ + ("\"query\":"@ + json_string(query) + ",\"task\":"@
            + json_string(prompt.task@) + "}"@),
        instructions_json(prompt, query, true) == "{"@ + ("\"focus\":"@ + json_string(prompt.focus@) + ","@)
            + ("\"query\":"@ + json_string(query) + ",\"task\":"@ + json_string(prompt.task@) + "}"@),
{
    reveal_strlit("{");
    reveal_strlit(",");
    reveal_strlit("{\"query\":");
    reveal_strlit("\"query\":");
    reveal_strlit(",\"query\":");
    reveal_strlit("{\"focus\":");
    reveal_strlit("\"focus\":");
    assert(instructions_json(prompt, query, false) =~= "{"@ + ("\"query\":"@ + json_string(query)
        + ",\"task\":"@ + json_string(prompt.task@) + "}"@));
    assert(instructions_json(prompt, query, true) =~= "{"@ + ("\"focus\":"@ + json_string(prompt.focus@)
        + ","@) + ("\"query\":"@ + json_string(query) + ",\"task\":"@ + json_string(prompt.task@) + "}"@));
}

/// The state object is `{`, the focus state when ranged, then the path and the whole file.
proof fn lemma_state_split(source: Source)
    ensures
        ({
            let rest = "\"path\":"@ + json_string(source.path@) + ",\"source\":"@ + json_string(source.text@)
                + "}"@;
            match source.focus {
                Some(f) => state_json(source) == "{"@ + ("\"focus\":"@ + focus_json(f.lines, f.text@) + ","@)
                    + rest,
                None => state_json(source) == "{"@ + rest,
            }
        }),
{
    reveal_strlit("{");
    reveal_strlit(",");
    reveal_strlit("{\"path\":");
    reveal_strlit("\"path\":");
    reveal_strlit(",\"path\":");
    reveal_strlit("{\"focus\":");
    reveal_strlit("\"focus\":");
    let rest = "\"path\":"@ + json_string(source.path@) + ",\"source\":"@ + json_string(source.text@) + "}"@;
    match source.focus {
        Some(f) => {
            assert(state_json(source) =~= "{"@ + ("\"focus\":"@ + focus_json(f.lines, f.text@) + ","@) + rest);
        },
        None => {
            assert(state_json(source) =~= "{"@ + rest);
        },
    }
}

/// Every request, ranged or not, asks the user's query under `query` and the prompt's task under `task`. A
/// ranged request is the whole-file request of the same file with two additions only: the prompt's focus rule
/// in the instructions and the focus lines in the state.
pub proof fn request_carries_query_and_task(model: Seq<char>, prompt: Prompt, query: Seq<char>, source: Source)
    ensures
        occurs_in(
            "\"query\":"@ + json_string(query) + ",\"task\":"@ + json_string(prompt.task@) + "}"@,
            request_json(model, prompt, query, source),
        ),
        source.focus matches Some(f) ==> inserts_two(
            request_json(model, prompt, query, Source { focus: None, ..source }),
            request_json(model, prompt, query, source),
            "\"focus\":"@ + json_string(prompt.focus@) + ","@,
            "\"focus\":"@ + focus_json(f.lines, f.text@) + ","@,
        ),
{
    let whole_source = Source { focus: None, ..source };
    lemma_instructions_split(prompt, query);
    lemma_state_split(source);
    lemma_state_split(whole_source);
    let head = "{\"model\":"@ + json_string(model) + ",\"questions\":{\"match\":{\"criteria\":"@ + criteria_json(
        prompt.criteria,
    ) + ",\"instructions\":"@;
    let mid = ",\"type\":\"choice\"}},\"state\":"@;
    let q = "\"query\":"@ + json_string(query) + ",\"task\":"@ + json_string(prompt.task@) + "}"@;
    let f1 = "\"focus\":"@ + json_string(prompt.focus@) + ","@;
    let p = "\"path\":"@ + json_string(source.path@) + ",\"source\":"@ + json_string(source.text@) + "}"@;
    let ranged = request_json(model, prompt, query, source);
    let whole = request_json(model, prompt, query, whole_source);
    assert(whole == head + instructions_json(prompt, query, false) + mid + state_json(whole_source) + "}"@);
    assert(whole == head + ("{"@ + q) + mid + ("{"@ + p) + "}"@);
    match source.focus {
        Some(f) => {
            let f2 = "\"focus\":"@ + focus_json(f.lines, f.text@) + ","@;
            assert(ranged == head + instructions_json(prompt, query, true) + mid + state_json(source) + "}"@);
            assert(ranged == head + ("{"@ + f1 + q) + mid + ("{"@ + f2 + p) + "}"@);
            lemma_splice(head, q, mid, p, f1, f2);
        },
        None => {
            assert(ranged == whole);
            lemma_splice(head, q, mid, p, Seq::empty(), Seq::empty());
        },
    }
}

/// The shape shared by both requests: inserting `f1` before the question and `f2` before the path is two
/// insertions, and the question stays in the result.
proof fn lemma_splice(
    head: Seq<char>,
    q: Seq<char>,
    mid: Seq<char>,
    p: Seq<char>,
    f1: Seq<char>,
    f2: Seq<char>,
)
    ensures
        occurs_in(q, head + ("{"@ + q) + mid + ("{"@ + p) + "}"@),
        occurs_in(q, head + ("{"@ + f1 + q) + mid + ("{"@ + f2 + p) + "}"@),
        inserts_two(
            head + ("{"@ + q) + mid + ("{"@ + p) + "}"@,
            head + ("{"@ + f1 + q) + mid + ("{"@ + f2 + p) + "}"@,
            f1,
            f2,
        ),
{
    let whole = head + ("{"@ + q) + mid + ("{"@ + p) + "}"@;
    let ranged = head + ("{"@ + f1 + q) + mid + ("{"@ + f2 + p) + "}"@;
    let a = head + "{"@;
    let b = q + mid + "{"@;
    let c = p + "}"@;
    assert(whole =~= a + q + (mid + "{"@ + c));
    lemma_occurs(a, q, mid + "{"@ + c);
    assert(ranged =~= (a + f1) + q + (mid + "{"@ + f2 + c));
    lemma_occurs(a + f1, q, mid + "{"@ + f2 + c);
    let i = a.len() as int;
    let j = (a.len() + b.len()) as int;
    assert(whole =~= a + b + c);
    assert(whole.take(i) =~= a);
    assert(whole.subrange(i, j) =~= b);
    assert(whole.skip(j) =~= c);
    assert(ranged =~= whole.take(i) + f1 + whole.subrange(i, j) + f2 + whole.skip(j));
}

/// The first checks on a decoded answer, before its numbers: the model is the one requested, there is
/// exactly one answer, it is named `match`, and it is of type `choice`. Each answer is its name and type;
/// the result is the index of the `match` answer.
pub fn check_answers(model: &str, expected_model: &str, answers: &Vec<(String, String)>) -> (r: Result<
    usize,
    JevError,
>)
    ensures
        model@ != expected_model@ ==> r == Err::<usize, JevError>(JevError::DifferentModel),
        model@ == expected_model@ && answers@.len() != 1 ==> r == Err::<usize, JevError>(
            JevError::UnexpectedAnswers,
        ),
        model@ == expected_model@ && answers@.len() == 1 && answers@[0].0@ != "match"@ ==> r == Err::<
            usize,
            JevError,
        >(JevError::MissingAssessment),
        model@ == expected_model@ && answers@.len() == 1 && answers@[0].0@ == "match"@
            && answers@[0].1@ != "choice"@ ==> r == Err::<usize, JevError>(JevError::NotChoice),
        model@ == expected_model@ && answers@.len() == 1 && answers@[0].0@ == "match"@
            && answers@[0].1@ == "choice"@ ==> r == Ok::<usize, JevError>(0),
{
    if !str_eq(model, expected_model) {
        return Err(JevError::DifferentModel);
    }
    if answers.len() != 1 {
        return Err(JevError::UnexpectedAnswers);
    }
    if !str_eq(answers[0].0.as_str(), "match") {
        return Err(JevError::MissingAssessment);
    }
    if !str_eq(answers[0].1.as_str(), "choice") {
        return Err(JevError::NotChoice);
    }
    Ok(0)
}

/// The probabilities must be labeled with exactly the three outcomes. `labels` are the distinct keys of the
/// answer's probabilities.
pub fn check_labels(labels: &Vec<Outcome>) -> (r: Result<(), JevError>)
    ensures
        r == (if labels@.len() == 3 && labels@.contains(Outcome::Match) && labels@.contains(
            Outcome::NoMatch,
        ) && labels@.contains(Outcome::Uncertain) {
            Ok::<(), JevError>(())
        } else {
            Err(JevError::InvalidLabels)
        }),
{
    if labels.len() != 3 {
        return Err(JevError::InvalidLabels);
    }
    let mut has_match = false;
    let mut has_no_match = false;
    let mut has_uncertain = false;
    let mut i: usize = 0;
    while i < 3
        invariant
            labels@.len() == 3,
            i <= 3,
            has_match == (exists|j: int| 0 <= j < i && labels@[j] == Outcome::Match),
            has_no_match == (exists|j: int| 0 <= j < i && labels@[j] == Outcome::NoMatch),
            has_uncertain == (exists|j: int| 0 <= j < i && labels@[j] == Outcome::Uncertain),
        decreases 3 - i,
    {
        match labels[i] {
            Outcome::Match => {
                has_match = true;
            },
            Outcome::NoMatch => {
                has_no_match = true;
            },
            Outcome::Uncertain => {
                has_uncertain = true;
            },
        }
        i = i + 1;
    }
    if has_match && has_no_match && has_uncertain {
        Ok(())
    } else {
        Err(JevError::InvalidLabels)
    }
}

} // verus!
