use webhook_dispatcher::config::{Config, ConfigServer, ConfigSite};
use webhook_dispatcher::github::dispatch_plan;
use webhook_dispatcher::github::rule_matches;
use webhook_dispatcher::github::GithubPayload;
use webhook_dispatcher::github::GithubRequestDataRepository;
use webhook_dispatcher::github::IncomingEvent;
use webhook_dispatcher::signature::hash_hmac_sha256;

fn event(full_name: &str, git_ref: Option<&str>, event_type: &str) -> IncomingEvent {
    IncomingEvent {
        raw_body: b"{}".to_vec(),
        payload: GithubPayload {
            repository: GithubRequestDataRepository {
                full_name: String::from(full_name),
            },
            _ref: git_ref.map(String::from),
        },
        event_type: String::from(event_type),
        signature: String::from("sha256=not-checked-without-a-secret"),
    }
}

fn open_rule() -> ConfigSite {
    ConfigSite {
        name: String::new(),
        password: String::new(),
        _ref: None,
        event: None,
        cmds: vec![],
    }
}

#[test]
fn open_rule_matches_any_event() {
    let rule = open_rule();
    assert!(rule_matches(&rule, &event("a/b", None, "push")));
    assert!(rule_matches(&rule, &event("c/d", Some("refs/tags/v1"), "release")));
}

#[test]
fn event_filter_rejects_other_event_type() {
    let rule = ConfigSite {
        event: Some(String::from("push")),
        ..open_rule()
    };
    assert!(!rule_matches(&rule, &event("a/b", None, "release")));
    assert!(rule_matches(&rule, &event("a/b", None, "push")));
}

#[test]
fn ref_filter_passes_through_when_event_has_no_ref() {
    let rule = ConfigSite {
        _ref: Some(String::from("refs/heads/main")),
        ..open_rule()
    };
    assert!(rule_matches(&rule, &event("a/b", None, "push")));
}

#[test]
fn ref_filter_rejects_on_mismatch_when_both_present() {
    let rule = ConfigSite {
        _ref: Some(String::from("refs/heads/main")),
        ..open_rule()
    };
    assert!(!rule_matches(&rule, &event("a/b", Some("refs/heads/dev"), "push")));
    assert!(rule_matches(&rule, &event("a/b", Some("refs/heads/main"), "push")));
}

#[test]
fn name_filter_rejects_other_repository() {
    let rule = ConfigSite {
        name: String::from("a/b"),
        ..open_rule()
    };
    assert!(!rule_matches(&rule, &event("c/d", None, "push")));
    assert!(rule_matches(&rule, &event("a/b", None, "push")));
}

#[test]
fn rule_with_secret_needs_a_valid_signature() {
    let rule = ConfigSite {
        password: String::from("hook-secret"),
        ..open_rule()
    };
    let mut ev = event("a/b", None, "push");
    assert!(!rule_matches(&rule, &ev));
    ev.signature = format!(
        "sha256={}",
        hash_hmac_sha256(&ev.raw_body, b"hook-secret")
    );
    assert!(rule_matches(&rule, &ev));
}

#[test]
fn both_matching_rules_contribute_commands_in_order() {
    let first = ConfigSite {
        cmds: vec![String::from("deploy one"), String::from("notify one")],
        ..open_rule()
    };
    let second = ConfigSite {
        cmds: vec![String::from("deploy two")],
        ..open_rule()
    };
    let plan = dispatch_plan(&vec![first, second], &event("a/b", None, "push"));
    assert_eq!(
        plan,
        vec![
            String::from("deploy one"),
            String::from("notify one"),
            String::from("deploy two"),
        ]
    );
}

#[test]
fn dispatch_walks_the_configured_rule_set() {
    let config = Config {
        server: ConfigServer {
            host: String::from("127.0.0.1"),
            port: 13400,
        },
        github: vec![
            ConfigSite {
                name: String::from("a/b"),
                cmds: vec![String::from("rebuild")],
                ..open_rule()
            },
            ConfigSite {
                event: Some(String::from("release")),
                cmds: vec![String::from("publish")],
                ..open_rule()
            },
        ],
    };
    let plan = dispatch_plan(&config.github, &event("a/b", None, "push"));
    assert_eq!(plan, vec![String::from("rebuild")]);
}

#[test]
fn non_matching_rule_contributes_nothing() {
    let matching = ConfigSite {
        cmds: vec![String::from("deploy")],
        ..open_rule()
    };
    let other = ConfigSite {
        name: String::from("someone/else"),
        cmds: vec![String::from("never run")],
        ..open_rule()
    };
    let plan = dispatch_plan(&vec![other, matching], &event("a/b", None, "push"));
    assert_eq!(plan, vec![String::from("deploy")]);
}
