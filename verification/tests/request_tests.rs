use discord_assist::cache::SelectableItem;
use discord_assist::errors::PluginError;
use discord_assist::request::{
    build_pending_items, expired_message, invalid_selection_message, make_add_token,
    make_select_token, option_description, option_label, parse_component_token, plan_add,
    select_buttons, size_label, truncate_string, InteractionCallback, SearchResult, TargetService,
    TokenParse,
};

#[test]
fn test_truncate_string_short() {
    assert_eq!(truncate_string("hello", 10), "hello");
}

#[test]
fn test_truncate_string_exact() {
    assert_eq!(truncate_string("hello", 5), "hello");
}

#[test]
fn test_truncate_string_long() {
    let result = truncate_string("hello world!", 8);
    assert_eq!(result, "hello...");
    assert!(result.len() <= 8);
}

#[test]
fn test_truncate_string_multibyte() {
    let s = "hello \u{1F600} world"; // emoji is 4 bytes
    let result = truncate_string(s, 10);
    assert!(result.ends_with("..."));
    // Must not panic on char boundary
}

#[test]
fn token_roundtrip() {
    assert_eq!(make_select_token("123"), "req_sel:123");
    assert_eq!(make_add_token("123", "sonarr", 4), "req_add:123:sonarr:4");
    match parse_component_token("req_sel:123") {
        TokenParse::Parsed(InteractionCallback::Select { session_id }) => {
            assert_eq!(session_id, "123");
        }
        _ => panic!("select token not parsed"),
    }
    match parse_component_token("req_add:123:sonarr:4") {
        TokenParse::Parsed(InteractionCallback::Add { session_id, service, choice_index }) => {
            assert_eq!(session_id, "123");
            assert_eq!(service, "sonarr");
            assert_eq!(choice_index, 4);
        }
        _ => panic!("add token not parsed"),
    }
}

#[test]
fn token_rejections() {
    assert!(matches!(parse_component_token("other:1"), TokenParse::NotRecognized));
    assert!(matches!(parse_component_token("req_add:123"), TokenParse::NotRecognized));
    assert!(matches!(parse_component_token("req_add:123:sonarr"), TokenParse::NotRecognized));
    assert!(matches!(parse_component_token("req_add:123:sonarr:x"), TokenParse::BadIndex));
    assert!(matches!(parse_component_token("req_add:123:sonarr:"), TokenParse::BadIndex));
}

#[test]
fn pending_items_capped_and_labelled() {
    let mut results = Vec::new();
    for i in 0..30u64 {
        results.push(SearchResult {
            title: format!("t{i}"),
            size: Some(i * 1_048_576),
            indexer_name: if i % 2 == 0 { Some(format!("idx{i}")) } else { None },
        });
    }
    let items = build_pending_items(&results);
    assert_eq!(items.len(), 25);
    assert_eq!(items[0].title, "t0");
    assert_eq!(items[0].source_label, "idx0");
    assert_eq!(items[1].source_label, "unknown");
}

#[test]
fn size_and_option_labels() {
    assert_eq!(size_label(Some(157_286_400)), " (150.0 MB)");
    assert_eq!(size_label(None), "");
    let item = SelectableItem {
        title: "A Long Title".to_string(),
        size: Some(1_048_576),
        source_label: "nyaa".to_string(),
    };
    assert_eq!(option_label(&item), "A Long Title");
    assert_eq!(option_description(&item), "nyaa (1.0 MB)");
}

#[test]
fn buttons_follow_configuration() {
    let both = select_buttons(true, true, "9", 2);
    assert_eq!(both.len(), 2);
    assert_eq!(both[0].0, "req_add:9:sonarr:2");
    assert_eq!(both[0].1, "Add to Sonarr");
    assert_eq!(both[1].0, "req_add:9:radarr:2");
    assert_eq!(both[1].1, "Add to Radarr");
    let only_radarr = select_buttons(false, true, "9", 0);
    assert_eq!(only_radarr.len(), 1);
    assert_eq!(only_radarr[0].0, "req_add:9:radarr:0");
    assert!(select_buttons(false, false, "9", 0).is_empty());
}

#[test]
fn add_plan_defaults_and_errors() {
    let roots = vec!["/tv".to_string()];
    let profiles = vec![6u32];
    let plan = plan_add(TargetService::Sonarr, &roots, &profiles).unwrap();
    assert_eq!(plan.lookup_endpoint, "series/lookup");
    assert_eq!(plan.add_endpoint, "series");
    assert_eq!(plan.root_path, "/tv");
    assert_eq!(plan.profile_id, 6);
    assert_eq!(plan.search_flag_key, "searchForMissingEpisodes");
    assert_eq!(plan.service_name, "Sonarr");

    let plan = plan_add(TargetService::Radarr, &roots, &profiles).unwrap();
    assert_eq!(plan.lookup_endpoint, "movie/lookup");
    assert_eq!(plan.add_endpoint, "movie");
    assert_eq!(plan.search_flag_key, "searchForMovie");

    let none: Vec<String> = Vec::new();
    match plan_add(TargetService::Radarr, &none, &profiles) {
        Err(PluginError::Other(m)) => assert_eq!(m, "No root folder configured in radarr"),
        _ => panic!("missing root not reported"),
    }
    let empty: Vec<u32> = Vec::new();
    match plan_add(TargetService::Sonarr, &roots, &empty) {
        Err(PluginError::Other(m)) => assert_eq!(m, "No quality profile configured in sonarr"),
        _ => panic!("missing profile not reported"),
    }
}

#[test]
fn fixed_workflow_messages() {
    assert_eq!(expired_message(), "This request has expired. Please search again.");
    assert_eq!(invalid_selection_message(), "Invalid selection.");
}
