use slumber::builder::BuildStep;
use slumber::chain::{Chain, TriggerPolicy};
use slumber::cli::{
    all_distinct, parse_key_val, BuildRequestCommand, Collection, CommandError, Profile, RequestCommand,
    HTTP_ERROR_EXIT_CODE, RECURSION_LIMIT,
};
use slumber::error::TemplateError;
use slumber::history::History;
use slumber::request::Recipe;
use slumber::template::{RenderError, TemplateString};

fn collection() -> Collection {
    Collection {
        profiles: vec![
            Profile {
                id: "local".to_string(),
                data: vec![
                    ("host".to_string(), "localhost".to_string()),
                    ("user".to_string(), "ann".to_string()),
                    ("host".to_string(), "127.0.0.1".to_string()),
                ],
            },
            Profile {
                id: "prod".to_string(),
                data: vec![("host".to_string(), "example.com".to_string())],
            },
        ],
        recipes: vec![
            Recipe {
                id: "get".to_string(),
                method: "GET".to_string(),
                url: TemplateString("http://{{host}}/{{user}}".to_string()),
                headers: Vec::new(),
                body: None,
            },
            Recipe {
                id: "chained".to_string(),
                method: "GET".to_string(),
                url: TemplateString("http://{{host}}/{{chains.c}}".to_string()),
                headers: Vec::new(),
                body: None,
            },
        ],
        chains: vec![Chain {
            id: "c".to_string(),
            source: "get".to_string(),
            path: None,
            trigger: TriggerPolicy::AlwaysTrigger,
            sensitive: true,
        }],
    }
}

fn command(recipe: &str, profile: Option<&str>, overrides: &[(&str, &str)]) -> BuildRequestCommand {
    BuildRequestCommand {
        recipe_id: recipe.to_string(),
        profile: profile.map(String::from),
        overrides: overrides
            .iter()
            .map(|(k, v)| (k.to_string(), v.to_string()))
            .collect(),
    }
}

fn request_command(dry_run: bool, exit_status: bool) -> RequestCommand {
    RequestCommand {
        build_request: command("get", None, &[]),
        status: false,
        headers: false,
        no_body: false,
        exit_status,
        dry_run,
    }
}

#[test]
fn test_parse_key_val() {
    assert_eq!(
        parse_key_val("key=value"),
        Ok(("key".to_string(), "value".to_string()))
    );
    assert_eq!(
        parse_key_val("a=b=c"),
        Ok(("a".to_string(), "b=c".to_string()))
    );
    assert_eq!(parse_key_val("="), Ok((String::new(), String::new())));
    assert_eq!(parse_key_val("k="), Ok(("k".to_string(), String::new())));
    assert_eq!(parse_key_val("=v"), Ok((String::new(), "v".to_string())));
    assert_eq!(
        parse_key_val("\u{e9}=\u{fc}"),
        Ok(("\u{e9}".to_string(), "\u{fc}".to_string()))
    );
    assert_eq!(
        parse_key_val("key"),
        Err("invalid key=value: no \"=\" found in `key`".to_string())
    );
    assert_eq!(
        parse_key_val(""),
        Err("invalid key=value: no \"=\" found in ``".to_string())
    );
}

#[test]
fn test_build_request_with_profile_and_overrides() {
    let (context, step) = command("get", Some("local"), &[("user", "bob")])
        .build_request(collection(), History::new(), true, 7)
        .unwrap();
    match step {
        BuildStep::Done(request) => {
            // The later of two values in a profile counts, and an override
            // comes before the profile
            assert_eq!(request.url, "http://127.0.0.1/bob");
            assert_eq!(request.profile_id, Some("local".to_string()));
            assert_eq!(request.recipe_id, "get");
        }
        other => panic!("expected a request, got {other:?}"),
    }
    assert_eq!(context.recursion_budget, RECURSION_LIMIT);
    assert_eq!(context.now, 7);
    assert!(context.transport);
    assert_eq!(context.profile_id, Some("local".to_string()));
}

#[test]
fn test_build_request_without_profile() {
    let (_, step) = command("get", None, &[("host", "h"), ("user", "u")])
        .build_request(collection(), History::new(), false, 0)
        .unwrap();
    assert!(matches!(step, BuildStep::Done(request) if request.url == "http://h/u"));

    let (_, step) = command("get", None, &[("host", "h")])
        .build_request(collection(), History::new(), false, 0)
        .unwrap();
    assert!(matches!(
        step,
        BuildStep::Failed(failure)
            if failure.error == TemplateError::FieldUnknown { field: "user".to_string() }
                && failure.template == "http://{{host}}/{{user}}"
    ));
}

#[test]
fn test_build_request_unknown_profile() {
    let error = command("get", Some("staging"), &[])
        .build_request(collection(), History::new(), true, 0)
        .err()
        .unwrap();
    assert_eq!(
        error,
        CommandError::UnknownProfile {
            id: "staging".to_string(),
            options: vec!["local".to_string(), "prod".to_string()],
        }
    );
    assert_eq!(
        error.message(),
        "No profile with ID `staging`; options are: local, prod"
    );
    // The profile is looked at first
    let error = command("nothing", Some("staging"), &[])
        .build_request(collection(), History::new(), true, 0)
        .err()
        .unwrap();
    assert!(matches!(error, CommandError::UnknownProfile { .. }));
}

#[test]
fn test_build_request_unknown_recipe() {
    let error = command("post", Some("prod"), &[])
        .build_request(collection(), History::new(), true, 0)
        .err()
        .unwrap();
    assert_eq!(
        error,
        CommandError::UnknownRecipe {
            id: "post".to_string(),
            options: vec!["get".to_string(), "chained".to_string()],
        }
    );
    assert_eq!(
        error.message(),
        "No recipe with ID `post`; options are: get, chained"
    );
    assert_eq!(
        CommandError::UnknownRecipe {
            id: "x".to_string(),
            options: Vec::new()
        }
        .message(),
        "No recipe with ID `x`; options are: "
    );
    assert_eq!(
        CommandError::UnknownProfile {
            id: String::new(),
            options: vec!["only".to_string()]
        }
        .message(),
        "No profile with ID ``; options are: only"
    );
}

#[test]
fn test_dry_run_disables_triggers() {
    let dry = request_command(true, false);
    assert!(!dry.trigger_dependencies());
    assert!(request_command(false, false).trigger_dependencies());

    let (context, step) = command("chained", Some("local"), &[])
        .build_request(collection(), History::new(), dry.trigger_dependencies(), 0)
        .unwrap();
    assert!(!context.transport);
    let error = match step {
        BuildStep::Failed(failure) => {
            assert_eq!(failure.template, "http://{{host}}/{{chains.c}}");
            failure.error
        }
        other => panic!("expected a failure, got {other:?}"),
    };
    assert_eq!(
        error,
        TemplateError::TriggerDisabled {
            chain_id: "c".to_string()
        }
    );
    let failure = RenderError {
        template: "http://{{host}}/{{chains.c}}".to_string(),
        error,
    };
    assert_eq!(
        failure.message(),
        "Error rendering template \"http://{{host}}/{{chains.c}}\": \
         Triggered requests are disabled, and needed for chain \"c\""
    );
    assert_eq!(
        dry.failure_message(&failure),
        "Triggered requests are disabled with `--dry-run`: \
         Error rendering template \"http://{{host}}/{{chains.c}}\": \
         Triggered requests are disabled, and needed for chain \"c\""
    );
    assert_eq!(
        request_command(false, false).failure_message(&failure),
        failure.message()
    );
    let other = RenderError {
        template: "{{f}}".to_string(),
        error: TemplateError::FieldUnknown {
            field: "f".to_string(),
        },
    };
    assert_eq!(
        dry.failure_message(&other),
        "Error rendering template \"{{f}}\": Unknown field \"f\""
    );
}

#[test]
fn test_distinct_ids() {
    let ids = |ids: &[&str]| -> Vec<String> { ids.iter().map(|id| id.to_string()).collect() };
    assert!(all_distinct(&ids(&[])));
    assert!(all_distinct(&ids(&["a"])));
    assert!(all_distinct(&ids(&["a", "b", "", "A"])));
    assert!(!all_distinct(&ids(&["a", "a"])));
    assert!(!all_distinct(&ids(&["a", "b", "c", "b"])));
    assert!(!all_distinct(&ids(&["", "b", ""])));

    assert!(collection().has_distinct_ids());
    let mut twice = collection();
    twice.profiles[1].id = "local".to_string();
    assert!(!twice.has_distinct_ids());
    let mut twice = collection();
    twice.recipes[1].id = "get".to_string();
    assert!(!twice.has_distinct_ids());
    let mut twice = collection();
    twice.chains.push(Chain {
        id: "c".to_string(),
        source: "chained".to_string(),
        path: None,
        trigger: TriggerPolicy::UseLastSuccess,
        sensitive: false,
    });
    assert!(!twice.has_distinct_ids());
    // Where an id is used twice, it names the first that has it
    let (_, step) = command("get", Some("local"), &[("user", "u")])
        .build_request(twice_local(), History::new(), false, 0)
        .unwrap();
    assert!(matches!(step, BuildStep::Done(request) if request.url == "http://127.0.0.1/u"));
}

fn twice_local() -> Collection {
    let mut twice = collection();
    twice.profiles[1].id = "local".to_string();
    twice
}

#[test]
fn test_exit_code() {
    let telling = request_command(false, true);
    assert_eq!(telling.exit_code(200), 0);
    assert_eq!(telling.exit_code(399), 0);
    assert_eq!(telling.exit_code(400), HTTP_ERROR_EXIT_CODE);
    assert_eq!(telling.exit_code(400), 2);
    assert_eq!(telling.exit_code(503), 2);
    assert_eq!(telling.exit_code(u16::MAX), 2);
    let silent = request_command(false, false);
    assert_eq!(silent.exit_code(200), 0);
    assert_eq!(silent.exit_code(404), 0);
}

#[test]
fn test_error_messages() {
    let id = || "c1".to_string();
    let cases = [
        (
            TemplateError::InvalidKey { key: id() },
            "Failed to parse template key \"c1\"",
        ),
        (
            TemplateError::FieldUnknown { field: id() },
            "Unknown field \"c1\"",
        ),
        (
            TemplateError::ChainUnknown { chain_id: id() },
            "Unknown chain \"c1\"",
        ),
        (
            TemplateError::ChainNoResponse { chain_id: id() },
            "No response available for chain \"c1\"",
        ),
        (
            TemplateError::TriggerDisabled { chain_id: id() },
            "Triggered requests are disabled, and needed for chain \"c1\"",
        ),
        (
            TemplateError::ChainJsonPath {
                chain_id: id(),
                path: "$..".to_string(),
                reason: "at position 4, no".to_string(),
            },
            "Error parsing JSON path \"$..\" for chain \"c1\": at position 4, no",
        ),
        (
            TemplateError::ChainJsonResponse {
                chain_id: id(),
                reason: "no JSON at line 1".to_string(),
            },
            "Error parsing response as JSON for chain \"c1\": no JSON at line 1",
        ),
        (
            TemplateError::ChainInvalidResult {
                chain_id: id(),
                matches: 3,
            },
            "Expected exactly one result for chain \"c1\"",
        ),
        (
            TemplateError::RecursionLimitExceeded { chain_id: id() },
            "Recursion limit exceeded at chain \"c1\"",
        ),
        (
            TemplateError::HistoryAccessFailure {
                message: "disk full".to_string(),
            },
            "disk full",
        ),
        (
            TemplateError::PromptFailure {
                message: "Password".to_string(),
            },
            "Password",
        ),
    ];
    for (error, message) in cases {
        assert_eq!(error.message(), message);
    }
}

#[test]
fn test_into_owned_keeps_the_error() {
    let borrowed: [TemplateError<&str>; 11] = [
        TemplateError::InvalidKey { key: "k" },
        TemplateError::FieldUnknown { field: "f" },
        TemplateError::ChainUnknown { chain_id: "c" },
        TemplateError::ChainNoResponse { chain_id: "c" },
        TemplateError::TriggerDisabled { chain_id: "c" },
        TemplateError::ChainJsonPath {
            chain_id: "c",
            path: "p",
            reason: "r".to_string(),
        },
        TemplateError::ChainJsonResponse {
            chain_id: "c",
            reason: "s".to_string(),
        },
        TemplateError::ChainInvalidResult {
            chain_id: "c",
            matches: 0,
        },
        TemplateError::RecursionLimitExceeded { chain_id: "c" },
        TemplateError::HistoryAccessFailure {
            message: "m".to_string(),
        },
        TemplateError::PromptFailure {
            message: "m".to_string(),
        },
    ];
    let owned: [TemplateError<String>; 11] = [
        TemplateError::InvalidKey {
            key: "k".to_string(),
        },
        TemplateError::FieldUnknown {
            field: "f".to_string(),
        },
        TemplateError::ChainUnknown {
            chain_id: "c".to_string(),
        },
        TemplateError::ChainNoResponse {
            chain_id: "c".to_string(),
        },
        TemplateError::TriggerDisabled {
            chain_id: "c".to_string(),
        },
        TemplateError::ChainJsonPath {
            chain_id: "c".to_string(),
            path: "p".to_string(),
            reason: "r".to_string(),
        },
        TemplateError::ChainJsonResponse {
            chain_id: "c".to_string(),
            reason: "s".to_string(),
        },
        TemplateError::ChainInvalidResult {
            chain_id: "c".to_string(),
            matches: 0,
        },
        TemplateError::RecursionLimitExceeded {
            chain_id: "c".to_string(),
        },
        TemplateError::HistoryAccessFailure {
            message: "m".to_string(),
        },
        TemplateError::PromptFailure {
            message: "m".to_string(),
        },
    ];
    for (borrowed, owned) in borrowed.into_iter().zip(owned) {
        assert_eq!(borrowed.into_owned(), owned);
    }
}
