use minutes_core::entities::{build_entity_links, capitalize_token, normalize_entity_topic, slugify};
use minutes_core::intents::{
    extract_action_items, extract_decisions, extract_due_date, extract_intents, infer_topic,
    parse_actor_prefix, ActionItem, Decision, Intent, IntentKind, Summary,
};

fn summary() -> Summary {
    Summary {
        text: String::new(),
        key_points: vec![],
        decisions: vec![],
        action_items: vec![],
        open_questions: vec![],
        commitments: vec![],
        participants: vec![],
    }
}

#[test]
fn extract_action_items_parses_assignee_and_task() {
    let summary = Summary {
        action_items: vec![
            "@user: Send pricing doc by Friday".into(),
            "@sarah: Review competitor grid (due March 21)".into(),
            "Unassigned task with no @".into(),
        ],
        ..summary()
    };

    let items = extract_action_items(&summary);
    assert_eq!(items.len(), 3);
    assert_eq!(items[0].assignee, "user");
    assert!(items[0].task.contains("Send pricing doc"));
    assert_eq!(items[0].due, Some("Friday".into()));
    assert_eq!(items[0].status, "open");

    assert_eq!(items[1].assignee, "sarah");
    assert_eq!(items[1].due, Some("March 21".into()));

    assert_eq!(items[2].assignee, "unassigned");
}

#[test]
fn extract_decisions_with_topic_inference() {
    let summary = Summary {
        decisions: vec![
            "Price advisor platform at monthly billing/mo".into(),
            "Use REST over GraphQL for the new API".into(),
        ],
        ..summary()
    };

    let decisions = extract_decisions(&summary);
    assert_eq!(decisions.len(), 2);
    assert!(decisions[0].topic.is_some());
    assert!(decisions[0].text.contains("monthly billing"));
}

#[test]
fn extract_due_date_patterns() {
    assert_eq!(extract_due_date("Send doc by Friday"), Some("Friday".into()));
    assert_eq!(extract_due_date("Review (due March 21)"), Some("March 21".into()));
    assert_eq!(extract_due_date("Just do this thing"), None);
}

#[test]
fn extract_intents_builds_typed_entries() {
    let summary = Summary {
        decisions: vec!["Use REST over GraphQL for the new API".into()],
        action_items: vec!["@user: Send pricing doc by Friday".into()],
        open_questions: vec!["@case: Do we grandfather current customers?".into()],
        commitments: vec!["@sarah: Share revised pricing model by Tuesday".into()],
        ..summary()
    };

    let intents = extract_intents(&summary);
    assert_eq!(intents.len(), 4);
    assert_eq!(intents[0].kind, IntentKind::ActionItem);
    assert_eq!(intents[0].who.as_deref(), Some("user"));
    assert_eq!(intents[0].by_date.as_deref(), Some("Friday"));
    assert_eq!(intents[1].kind, IntentKind::Decision);
    assert_eq!(intents[1].status, "decided");
    assert_eq!(intents[2].kind, IntentKind::OpenQuestion);
    assert_eq!(intents[2].who.as_deref(), Some("case"));
    assert_eq!(intents[3].kind, IntentKind::Commitment);
    assert_eq!(intents[3].who.as_deref(), Some("sarah"));
    assert_eq!(intents[3].by_date.as_deref(), Some("Tuesday"));
}

#[test]
fn build_entity_links_derives_people_and_projects() {
    let action_items = vec![ActionItem {
        assignee: "mat".into(),
        task: "Send pricing doc".into(),
        due: Some("Friday".into()),
        status: "open".into(),
    }];
    let decisions = vec![Decision {
        text: "Launch pricing at monthly billing per month".into(),
        topic: Some("pricing strategy".into()),
    }];
    let intents = vec![Intent {
        kind: IntentKind::Commitment,
        what: "Share revised pricing model".into(),
        who: Some("Alex Chen".into()),
        status: "open".into(),
        by_date: Some("Tuesday".into()),
    }];

    let entities = build_entity_links(
        "Q2 Pricing Discussion",
        Some("pricing review with Alex"),
        &["Case Wintermute".into()],
        &action_items,
        &decisions,
        &intents,
        &["advisor-platform".into()],
    );

    assert!(entities.people.iter().any(|entity| entity.slug == "mat"));
    assert!(entities.people.iter().any(|entity| entity.slug == "alex-chen"));
    assert!(entities.people.iter().any(|entity| entity.slug == "case-wintermute"));
    assert!(entities.projects.iter().any(|entity| entity.slug == "pricing-strategy"));
    assert!(entities.projects.iter().any(|entity| entity.slug == "advisor-platform"));
}

#[test]
fn entity_links_are_ordered_by_slug_with_merged_aliases() {
    let entities = build_entity_links(
        "Untitled Recording",
        None,
        &["@zoe".into(), "Adam".into(), "ZOE".into(), "unassigned".into()],
        &[],
        &[],
        &[],
        &["beta".into(), "alpha".into(), "Beta!".into()],
    );
    let slugs: Vec<&str> = entities.people.iter().map(|e| e.slug.as_str()).collect();
    assert_eq!(slugs, vec!["adam", "zoe"]);
    assert_eq!(entities.people[1].label, "Zoe");
    assert_eq!(entities.people[1].aliases, vec!["@zoe", "zoe"]);
    let projects: Vec<&str> = entities.projects.iter().map(|e| e.slug.as_str()).collect();
    assert_eq!(projects, vec!["alpha", "beta"]);
}

#[test]
fn parse_actor_prefix_and_topic_helpers() {
    assert_eq!(
        parse_actor_prefix("@case: Do we?"),
        (Some("case".to_string()), "Do we?".to_string())
    );
    assert_eq!(parse_actor_prefix("@: x"), (None, "x".to_string()));
    assert_eq!(parse_actor_prefix("  plain  "), (None, "plain".to_string()));
    assert_eq!(infer_topic("The plan is to ship it"), Some("plan ship".to_string()));
    assert_eq!(infer_topic("the a an"), None);
    assert_eq!(slugify("  Hello, World!! 2 "), "hello-world-2");
    assert_eq!(capitalize_token("hELLO"), "Hello");
    assert_eq!(normalize_entity_topic("We should use the (new) API, now!"), "new api now");
}
