use slumber::builder::{BuildStep, RequestBuilder};
use slumber::chain::{Chain, TriggerPolicy};
use slumber::error::TemplateError;
use slumber::fields::FieldMap;
use slumber::history::{History, Outcome};
use slumber::request::{Recipe, Request, Response};
use slumber::template::{TemplateContext, TemplateString};

fn recipe(id: &str, url: &str, headers: &[(&str, &str)], body: Option<&str>) -> Recipe {
    Recipe {
        id: id.to_string(),
        method: "POST".to_string(),
        url: TemplateString(url.to_string()),
        headers: headers
            .iter()
            .map(|(name, value)| (name.to_string(), TemplateString(value.to_string())))
            .collect(),
        body: body.map(|body| TemplateString(body.to_string())),
    }
}

fn chain(id: &str, source: &str, path: Option<&str>, trigger: TriggerPolicy) -> Chain {
    Chain {
        id: id.to_string(),
        source: source.to_string(),
        path: path.map(String::from),
        trigger,
        sensitive: false,
    }
}

fn context(recipes: Vec<Recipe>, chains: Vec<Chain>, transport: bool) -> TemplateContext {
    let mut profile = FieldMap::new();
    profile.insert("host".to_string(), "example.com".to_string());
    profile.insert("user".to_string(), "ann".to_string());
    TemplateContext {
        profile_id: Some("dev".to_string()),
        profile,
        overrides: FieldMap::new(),
        chains,
        recipes,
        history: History::new(),
        transport,
        recursion_budget: 3,
        now: 50,
    }
}

fn ok(body: &str) -> Result<Response, String> {
    Ok(Response {
        status: 200,
        body: body.to_string(),
    })
}

fn expect_send(step: BuildStep) -> (usize, RequestBuilder) {
    match step {
        BuildStep::Send { record, builder } => (record, builder),
        other => panic!("expected a request to send, got {other:?}"),
    }
}

fn expect_done(step: BuildStep) -> Request {
    match step {
        BuildStep::Done(request) => request,
        other => panic!("expected a complete request, got {other:?}"),
    }
}

fn expect_failed(step: BuildStep) -> TemplateError<String> {
    match step {
        BuildStep::Failed(failure) => failure.error,
        other => panic!("expected a failure, got {other:?}"),
    }
}

fn login_and_fetch(trigger: TriggerPolicy, transport: bool) -> TemplateContext {
    context(
        vec![
            recipe(
                "login",
                "https://{{host}}/login",
                &[],
                Some("{\"user\":\"{{user}}\"}"),
            ),
            recipe(
                "fetch",
                "https://{{host}}/items",
                &[
                    ("Authorization", "Bearer {{chains.token}}"),
                    ("X-User", "{{user}}"),
                ],
                None,
            ),
        ],
        vec![chain("token", "login", Some("$.token"), trigger)],
        transport,
    )
}

#[test]
fn test_build_without_chains() {
    let mut context = login_and_fetch(TriggerPolicy::AlwaysTrigger, false);
    let step = RequestBuilder::start(&mut context, "login").unwrap();
    let request = expect_done(step);
    assert_eq!(
        request,
        Request {
            recipe_id: "login".to_string(),
            profile_id: Some("dev".to_string()),
            method: "POST".to_string(),
            url: "https://example.com/login".to_string(),
            headers: Vec::new(),
            body: Some("{\"user\":\"ann\"}".to_string()),
        }
    );
    assert_eq!(context.history.len(), 0);
}

#[test]
fn test_build_unknown_recipe() {
    let mut context = login_and_fetch(TriggerPolicy::AlwaysTrigger, true);
    assert!(RequestBuilder::start(&mut context, "logout").is_none());
}

#[test]
fn test_triggered_chain() {
    let mut context = login_and_fetch(TriggerPolicy::AlwaysTrigger, true);
    let step = RequestBuilder::start(&mut context, "fetch").unwrap();
    let (record, builder) = expect_send(step);

    // The request to send is on record, with nothing known of its outcome
    assert_eq!(record, 0);
    assert_eq!(context.history.len(), 1);
    let sent = context.history.get(record).unwrap();
    assert_eq!(sent.request.recipe_id, "login");
    assert_eq!(sent.request.url, "https://example.com/login");
    assert_eq!(sent.request.body, Some("{\"user\":\"ann\"}".to_string()));
    assert_eq!(sent.outcome, Outcome::Pending);

    let step = builder.receive(&mut context, ok("{\"token\":\"s3cr3t\"}"));
    let request = expect_done(step);
    assert_eq!(request.recipe_id, "fetch");
    assert_eq!(request.url, "https://example.com/items");
    assert_eq!(
        request.headers,
        vec![
            ("Authorization".to_string(), "Bearer s3cr3t".to_string()),
            ("X-User".to_string(), "ann".to_string()),
        ]
    );
    assert_eq!(request.body, None);

    // The response is on record
    assert_eq!(context.history.len(), 1);
    assert_eq!(
        context.history.get(record).unwrap().outcome,
        Outcome::Success {
            response: Response {
                status: 200,
                body: "{\"token\":\"s3cr3t\"}".to_string()
            },
            time: 50
        }
    );
    let (response, time) = context
        .history
        .get_last_success("login", &Some("dev".to_string()))
        .unwrap();
    assert_eq!(response.body, "{\"token\":\"s3cr3t\"}");
    assert_eq!(time, 50);
}

#[test]
fn test_failed_trigger_is_recorded() {
    let mut context = login_and_fetch(TriggerPolicy::AlwaysTrigger, true);
    let step = RequestBuilder::start(&mut context, "fetch").unwrap();
    let (record, builder) = expect_send(step);
    let step = builder.receive(&mut context, Err("connection refused".to_string()));
    assert_eq!(
        expect_failed(step),
        TemplateError::ChainNoResponse {
            chain_id: "token".to_string()
        }
    );
    let kept = context.history.get(record).unwrap();
    assert_eq!(kept.request.recipe_id, "login");
    assert_eq!(
        kept.outcome,
        Outcome::Failure {
            message: "connection refused".to_string()
        }
    );
    assert!(context
        .history
        .get_last_success("login", &Some("dev".to_string()))
        .is_none());
}

#[test]
fn test_triggered_chain_with_bad_response() {
    let mut context = login_and_fetch(TriggerPolicy::AlwaysTrigger, true);
    let step = RequestBuilder::start(&mut context, "fetch").unwrap();
    let (record, builder) = expect_send(step);
    let step = builder.receive(&mut context, ok("<html>"));
    assert_eq!(
        expect_failed(step),
        TemplateError::ChainJsonResponse {
            chain_id: "token".to_string(),
            reason: "expected value at line 1 column 1".to_string(),
        }
    );
    // What came back is on record all the same
    assert!(matches!(
        context.history.get(record).unwrap().outcome,
        Outcome::Success { .. }
    ));
}

#[test]
fn test_trigger_disabled_without_transport() {
    let mut context = login_and_fetch(TriggerPolicy::AlwaysTrigger, false);
    let step = RequestBuilder::start(&mut context, "fetch").unwrap();
    let error = expect_failed(step);
    assert_eq!(
        error,
        TemplateError::TriggerDisabled {
            chain_id: "token".to_string()
        }
    );
    assert!(error.has_trigger_disabled_error());
    assert_ne!(
        error,
        TemplateError::ChainNoResponse {
            chain_id: "token".to_string()
        }
    );
    assert_eq!(context.history.len(), 0);
}

#[test]
fn test_use_last_success_sends_nothing() {
    let mut context = login_and_fetch(TriggerPolicy::UseLastSuccess, true);
    let step = RequestBuilder::start(&mut context, "fetch").unwrap();
    assert_eq!(
        expect_failed(step),
        TemplateError::ChainNoResponse {
            chain_id: "token".to_string()
        }
    );
    assert_eq!(context.history.len(), 0);
}

#[test]
fn test_stale_chain_sends_once() {
    let mut context = login_and_fetch(TriggerPolicy::TriggerIfStale { max_age: 10 }, true);
    let step = RequestBuilder::start(&mut context, "fetch").unwrap();
    let (_, builder) = expect_send(step);
    let step = builder.receive(&mut context, ok("{\"token\":\"one\"}"));
    assert_eq!(expect_done(step).headers[0].1, "Bearer one");

    // Ten seconds later the response is fresh enough
    context.now = 60;
    let step = RequestBuilder::start(&mut context, "fetch").unwrap();
    assert_eq!(expect_done(step).headers[0].1, "Bearer one");
    assert_eq!(context.history.len(), 1);

    // One second more and it is stale
    context.now = 61;
    let step = RequestBuilder::start(&mut context, "fetch").unwrap();
    let (record, builder) = expect_send(step);
    assert_eq!(record, 1);
    let step = builder.receive(&mut context, ok("{\"token\":\"two\"}"));
    assert_eq!(expect_done(step).headers[0].1, "Bearer two");
}

#[test]
fn test_two_recipe_cycle_hits_the_limit() {
    let mut context = context(
        vec![
            recipe("a", "http://a/{{chains.from_b}}", &[], None),
            recipe("b", "http://b/{{chains.from_a}}", &[], None),
        ],
        vec![
            chain("from_b", "b", None, TriggerPolicy::AlwaysTrigger),
            chain("from_a", "a", None, TriggerPolicy::AlwaysTrigger),
        ],
        true,
    );
    for budget in 0..6 {
        context.recursion_budget = budget;
        let step = RequestBuilder::start(&mut context, "a").unwrap();
        let error = expect_failed(step);
        assert!(matches!(
            error,
            TemplateError::RecursionLimitExceeded { .. }
        ));
        // Nothing was sent on the way
        assert_eq!(context.history.len(), 0);
    }
}

#[test]
fn test_nested_triggers_within_budget() {
    // c needs b, b needs a
    let recipes = || {
        vec![
            recipe("a", "http://a/", &[], None),
            recipe("b", "http://b/{{chains.from_a}}", &[], None),
            recipe("c", "http://c/{{chains.from_b}}?{{chains.from_b}}", &[], None),
        ]
    };
    let chains = || {
        vec![
            chain("from_a", "a", None, TriggerPolicy::AlwaysTrigger),
            chain("from_b", "b", None, TriggerPolicy::AlwaysTrigger),
        ]
    };
    let mut context = context(recipes(), chains(), true);
    context.recursion_budget = 2;
    let step = RequestBuilder::start(&mut context, "c").unwrap();

    // First a is sent, for b
    let (record, builder) = expect_send(step);
    assert_eq!(context.history.get(record).unwrap().request.url, "http://a/");
    let step = builder.receive(&mut context, ok("A"));
    // Then b, for c
    let (record, builder) = expect_send(step);
    assert_eq!(context.history.get(record).unwrap().request.url, "http://b/A");
    let step = builder.receive(&mut context, ok("B1"));
    // The second placeholder sends both again, in the same order
    let (record, builder) = expect_send(step);
    assert_eq!(context.history.get(record).unwrap().request.url, "http://a/");
    let step = builder.receive(&mut context, ok("A2"));
    let (record, builder) = expect_send(step);
    assert_eq!(context.history.get(record).unwrap().request.url, "http://b/A2");
    let step = builder.receive(&mut context, ok("B2"));
    assert_eq!(expect_done(step).url, "http://c/B1?B2");
    assert_eq!(context.history.len(), 4);

    // With a budget of one, b may be sent but may send nothing itself
    let mut context = TemplateContext {
        recursion_budget: 1,
        ..self::context(recipes(), chains(), true)
    };
    let step = RequestBuilder::start(&mut context, "c").unwrap();
    assert_eq!(
        expect_failed(step),
        TemplateError::RecursionLimitExceeded {
            chain_id: "from_a".to_string()
        }
    );
}

#[test]
fn test_chain_to_missing_recipe_has_no_response() {
    let mut context = context(
        vec![recipe("a", "http://a/{{chains.gone}}", &[], None)],
        vec![chain("gone", "nowhere", None, TriggerPolicy::AlwaysTrigger)],
        true,
    );
    let step = RequestBuilder::start(&mut context, "a").unwrap();
    assert_eq!(
        expect_failed(step),
        TemplateError::ChainNoResponse {
            chain_id: "gone".to_string()
        }
    );
}

#[test]
fn test_error_in_nested_recipe_ends_the_build() {
    let mut context = context(
        vec![
            recipe("a", "http://a/{{chains.from_b}}", &[], None),
            recipe("b", "http://b/{{missing}}", &[], None),
        ],
        vec![chain("from_b", "b", None, TriggerPolicy::AlwaysTrigger)],
        true,
    );
    let step = RequestBuilder::start(&mut context, "a").unwrap();
    assert_eq!(
        expect_failed(step),
        TemplateError::FieldUnknown {
            field: "missing".to_string()
        }
    );
    assert_eq!(context.history.len(), 0);
}

#[test]
fn test_failure_names_the_template() {
    let mut context = context(
        vec![
            recipe(
                "a",
                "http://{{host}}/",
                &[("A", "{{chains.from_b}}"), ("B", "{{nothing}}")],
                None,
            ),
            recipe("b", "{{user}}", &[], Some("{{ a.b.c }}")),
        ],
        vec![chain("from_b", "b", Some("$.x"), TriggerPolicy::AlwaysTrigger)],
        true,
    );
    // The nested recipe fails in its body
    let step = RequestBuilder::start(&mut context, "a").unwrap();
    match step {
        BuildStep::Failed(failure) => {
            assert_eq!(failure.template, "{{ a.b.c }}");
            assert_eq!(
                failure.error,
                TemplateError::InvalidKey {
                    key: "a.b.c".to_string()
                }
            );
        }
        other => panic!("expected a failure, got {other:?}"),
    }

    // What comes back fails the template that waited for it
    context.recipes[1].body = None;
    for (result, error) in [
        (
            Err("timeout".to_string()),
            TemplateError::ChainNoResponse {
                chain_id: "from_b".to_string(),
            },
        ),
        (
            ok("{}"),
            TemplateError::ChainInvalidResult {
                chain_id: "from_b".to_string(),
                matches: 0,
            },
        ),
    ] {
        let step = RequestBuilder::start(&mut context, "a").unwrap();
        let (_, builder) = expect_send(step);
        match builder.receive(&mut context, result) {
            BuildStep::Failed(failure) => {
                assert_eq!(failure.template, "{{chains.from_b}}");
                assert_eq!(failure.error, error);
            }
            other => panic!("expected a failure, got {other:?}"),
        }
    }

    // With a value for the chain, the next header fails
    let step = RequestBuilder::start(&mut context, "a").unwrap();
    let (_, builder) = expect_send(step);
    match builder.receive(&mut context, ok("{\"x\": 1}")) {
        BuildStep::Failed(failure) => {
            assert_eq!(failure.template, "{{nothing}}");
            assert_eq!(
                failure.error,
                TemplateError::FieldUnknown {
                    field: "nothing".to_string()
                }
            );
        }
        other => panic!("expected a failure, got {other:?}"),
    }
    assert_eq!(context.history.len(), 3);
}

#[test]
fn test_text_before_a_chain_is_kept() {
    let mut context = context(
        vec![
            recipe("a", "{{user}}: {{chains.from_b}} / {{host}}", &[], None),
            recipe("b", "http://b/", &[], None),
        ],
        vec![chain("from_b", "b", None, TriggerPolicy::AlwaysTrigger)],
        true,
    );
    let step = RequestBuilder::start(&mut context, "a").unwrap();
    let (_, builder) = expect_send(step);
    let step = builder.receive(&mut context, ok("{{user}}"));
    // A value is not rendered again
    assert_eq!(expect_done(step).url, "ann: {{user}} / example.com");
}
