use ev_grep::config::{ConfigError, Provider};
use ev_grep::outcome::{decide_outcome, Outcome, Uncertainty};
use ev_grep::protocol::{
    accept_chunk, check_answers, check_key, check_labels, check_prompt, check_query, check_request,
    request, Criteria, JevError, Prompt,
};
use ev_grep::target::LineRange;
use ev_grep::{Focus, Source};
use serde_json::Value;

fn fixture_prompt() -> Prompt {
    Prompt {
        task: "Decide whether the source matches the query.".into(),
        focus: "Judge only the focus lines.".into(),
        criteria: Criteria {
            matches: "The source does what the query says.".into(),
            no_match: "The source does not.".into(),
            uncertain: "The source alone cannot tell.".into(),
        },
    }
}

fn answers(items: &[(&str, &str)]) -> Vec<(String, String)> {
    items.iter().map(|(name, kind)| (name.to_string(), kind.to_string())).collect()
}

#[test]
fn embedded_prompt_fills_the_request_and_rejects_incomplete_fields() {
    let prompt = check_prompt(fixture_prompt()).unwrap();
    let source = Source { path: "retry.ts".into(), text: "retry()\n".into(), focus: None };
    let body = request("fixture", &prompt, "Retries requests", &source);
    let request: Value = serde_json::from_str(&body).unwrap();
    // A whole-file search sends only the path and source, with no focus rule.
    assert_eq!(request["state"].as_object().map(|s| s.len()), Some(2));
    let question = &request["questions"]["match"];
    assert_eq!(question["instructions"].as_object().map(|i| i.len()), Some(2));
    assert_eq!(question["instructions"]["task"], prompt.task.as_str());
    assert_eq!(question["instructions"]["query"], "Retries requests");
    assert_eq!(question["criteria"]["match"], prompt.criteria.matches.as_str());
    assert_eq!(question["criteria"]["no_match"], prompt.criteria.no_match.as_str());
    assert_eq!(question["criteria"]["uncertain"], prompt.criteria.uncertain.as_str());
    assert_eq!(question["criteria"].as_object().map(|c| c.len()), Some(3));

    let mut blank = fixture_prompt();
    blank.task = " ".into();
    assert_eq!(check_prompt(blank).unwrap_err(), JevError::IncompletePrompt);
    assert_eq!(JevError::IncompletePrompt.message(), "prompt.json fields must not be empty");
}

#[test]
fn ranged_request_sends_the_whole_file_and_the_focus_lines() {
    let prompt = fixture_prompt();
    let source = Source {
        path: "users.py".into(),
        text: "import db\n\ndef save(user):\n    db.insert(user)\n".into(),
        focus: Some(Focus {
            lines: LineRange { start: 3, end: 4 },
            text: "def save(user):\n    db.insert(user)\n".into(),
        }),
    };
    let body = request("fixture", &prompt, "Writes to the database", &source);
    let request: Value = serde_json::from_str(&body).unwrap();
    assert_eq!(request["state"]["source"], source.text.as_str());
    assert_eq!(request["state"]["focus"]["start_line"], 3);
    assert_eq!(request["state"]["focus"]["end_line"], 4);
    assert_eq!(request["state"]["focus"]["text"], "def save(user):\n    db.insert(user)\n");
    assert_eq!(request["questions"]["match"]["instructions"]["focus"], prompt.focus.as_str());
}

#[test]
fn requests_match_serde_json_byte_for_byte() {
    let prompt = fixture_prompt();
    let source = Source {
        path: "we\"ird\\path\u{1}.py".into(),
        text: "tab\there\r\nnul\u{0}é\u{7f}\u{2028}".into(),
        focus: None,
    };
    let body = request("m", &prompt, "q\u{8}\u{c}", &source);
    let value: Value = serde_json::from_str(&body).unwrap();
    assert_eq!(serde_json::to_string(&value).unwrap(), body);
    assert_eq!(value["state"]["path"], source.path.as_str());
    assert_eq!(value["state"]["source"], source.text.as_str());
    assert_eq!(value["questions"]["match"]["type"], "choice");
    assert_eq!(value["model"], "m");
    assert!(body.starts_with("{\"model\":\"m\",\"questions\":{\"match\":{\"criteria\":{\"match\":"));
    assert!(body.contains("\\u0001") && body.contains("\\u0000") && body.contains("\\b\\f"));
}

#[test]
fn uncertainty_and_invalid_protocol_cannot_become_confident_matches() {
    assert_eq!(decide_outcome(Outcome::Match, true), (Outcome::Uncertain, Some(Uncertainty::LowConfidence)));
    assert_eq!(decide_outcome(Outcome::Match, false), (Outcome::Match, None));
    let model = Provider::TypeSafe.default_model();
    assert_eq!(
        check_answers("another-model", model, &answers(&[("match", "choice")])),
        Err(JevError::DifferentModel)
    );
    assert_eq!(check_answers(model, model, &answers(&[])), Err(JevError::UnexpectedAnswers));
    assert_eq!(check_answers(model, model, &answers(&[("match", "choice")])), Ok(0));
    for provider in [Provider::OpenRouter, Provider::TypeSafe] {
        assert!(provider.model(Some("jev-latest")).is_err());
        assert!(provider.model(Some(provider.default_model())).is_ok());
        assert_eq!(provider.model(None).unwrap(), provider.default_model());
    }
}

#[test]
fn uncertain_choices_stay_uncertain_for_lack_of_context() {
    for below in [false, true] {
        assert_eq!(
            decide_outcome(Outcome::Uncertain, below),
            (Outcome::Uncertain, Some(Uncertainty::InsufficientContext))
        );
    }
    assert_eq!(decide_outcome(Outcome::NoMatch, false), (Outcome::NoMatch, None));
    assert_eq!(decide_outcome(Outcome::NoMatch, true), (Outcome::Uncertain, Some(Uncertainty::LowConfidence)));
    assert_eq!(Outcome::NoMatch.name(), "no_match");
    assert_eq!(Uncertainty::LowConfidence.name(), "low_confidence");
}

#[test]
fn answer_shape_errors_come_in_protocol_order() {
    let m = "jev-1.13.0";
    assert_eq!(check_answers("other", m, &answers(&[])), Err(JevError::DifferentModel));
    assert_eq!(
        check_answers(m, m, &answers(&[("match", "choice"), ("other", "choice")])),
        Err(JevError::UnexpectedAnswers)
    );
    assert_eq!(check_answers(m, m, &answers(&[("other", "choice")])), Err(JevError::MissingAssessment));
    assert_eq!(check_answers(m, m, &answers(&[("match", "text")])), Err(JevError::NotChoice));
    assert_eq!(check_labels(&vec![Outcome::Match, Outcome::NoMatch, Outcome::Uncertain]), Ok(()));
    assert_eq!(check_labels(&vec![Outcome::Uncertain, Outcome::Match, Outcome::NoMatch]), Ok(()));
    assert_eq!(check_labels(&vec![Outcome::Match, Outcome::NoMatch]), Err(JevError::InvalidLabels));
    assert_eq!(JevError::DifferentModel.message(), "Jev returned a different model than requested");
    assert_eq!(JevError::InvalidLabels.message(), "invalid probability labels");
}

#[test]
fn requests_and_responses_stay_within_their_limits() {
    assert_eq!(check_query("Retries requests"), Ok(()));
    assert_eq!(check_query("  \n"), Err(JevError::QueryBounds));
    assert_eq!(check_query(&"é".repeat(4096)), Ok(()));
    assert_eq!(check_query(&"é".repeat(4097)), Err(JevError::QueryBounds));
    assert_eq!(JevError::QueryBounds.message(), "query must contain 1–8192 bytes");
    assert_eq!(check_request(&"x".repeat(98304)), Ok(()));
    assert_eq!(check_request(&"x".repeat(98305)), Err(JevError::RequestTooLarge));
    assert_eq!(accept_chunk(65000, 536), Ok(65536));
    assert_eq!(accept_chunk(65000, 537), Err(JevError::ResponseTooLarge));
    assert_eq!(accept_chunk(usize::MAX, 1), Err(JevError::ResponseTooLarge));
    assert_eq!(JevError::ResponseTooLarge.message(), "Jev response exceeds 65536 bytes");
    assert_eq!(check_key(" "), Err(JevError::EmptyKey));
    assert_eq!(check_key("test-key"), Ok(()));
    assert_eq!(
        JevError::HttpStatus { code: 503 }.message(),
        "Jev returned HTTP 503; no assessment was recorded"
    );
}

#[test]
fn providers_have_fixed_endpoints_models_and_keys() {
    assert_eq!(Provider::default(), Provider::OpenRouter);
    assert_eq!(Provider::OpenRouter.endpoint(), "https://openrouter.ai/api/alpha/decisions");
    assert_eq!(Provider::TypeSafe.endpoint(), "https://api.typesafe.ai/v1/systemone");
    assert_eq!(Provider::OpenRouter.default_model(), "typesafe/jev-1.13-20260917");
    assert_eq!(Provider::TypeSafe.key_variable(), "TYPESAFE_API_KEY");
    assert_eq!(Provider::OpenRouter.key_variable(), "OPENROUTER_API_KEY");
    for provider in [Provider::OpenRouter, Provider::TypeSafe] {
        assert_eq!(Provider::from_name(provider.name()), Ok(provider));
        assert_eq!(provider.name().parse::<Provider>(), Ok(provider));
    }
    assert_eq!(Provider::from_name("OpenRouter"), Err(ConfigError::UnknownProvider));
    assert_eq!(ConfigError::UnknownProvider.message(), "provider must be openrouter or typesafe");
    let error = Provider::TypeSafe.model(Some("jev \"latest\"")).unwrap_err();
    assert_eq!(
        error.message(),
        "unsupported model \"jev \\\"latest\\\"\" for typesafe; supported model: jev-1.13.0"
    );
}

#[test]
fn parsing_an_unknown_provider_names_the_choices() {
    assert_eq!(
        "OpenRouter".parse::<Provider>(),
        Err("provider must be openrouter or typesafe".to_string())
    );
    assert_eq!("typesafe".parse::<Provider>(), Ok(Provider::TypeSafe));
}
