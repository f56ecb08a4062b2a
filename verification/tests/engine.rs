use msl_engine::engine::env_get;
use msl_engine::engine::MslEngine;
use msl_engine::engine::Reply;
use msl_engine::engine::Request;
use msl_engine::engine::Selection;
use msl_engine::engine::Step;
use msl_engine::parse_script;
use msl_engine::MslError;

fn page(html: &str) -> Reply {
    Reply::Page { html: html.to_string() }
}

#[test]
fn page_dependent_commands_fail_before_any_open() {
    for script in ["media\n  image", "click \"a\"", "set x = text"] {
        let parsed = parse_script(script).unwrap();
        let mut engine = MslEngine::new();
        engine.start(parsed);
        match engine.next_step() {
            Step::Failed(MslError::NoPageLoaded) => {},
            other => panic!("expected NoPageLoaded for {:?}, got {:?}", script, other),
        }
    }
}

#[test]
fn open_then_wait_runs_in_order_with_no_downloads() {
    let parsed = parse_script("open \"http://example.com\"\nwait 0").unwrap();
    let mut engine = MslEngine::new();
    engine.start(parsed);
    match engine.next_step() {
        Step::Do(Request::Fetch { url }) => assert_eq!(url, "http://example.com"),
        other => panic!("expected a fetch, got {:?}", other),
    }
    assert!(matches!(engine.on_reply(page("<html></html>")), Step::Continue));
    match engine.next_step() {
        Step::Do(Request::Sleep { seconds }) => assert_eq!(seconds, 0),
        other => panic!("expected a pause, got {:?}", other),
    }
    assert!(matches!(engine.on_reply(Reply::Done), Step::Continue));
    assert!(matches!(engine.next_step(), Step::Finished));
}

#[test]
fn nested_clicks_are_visited_depth_first_in_source_order() {
    let script = "open \"http://root\"\nclick \"a\"\n  click \"b\"\n    click \"c\"";
    let parsed = parse_script(script).unwrap();
    let mut engine = MslEngine::new();
    engine.start(parsed);
    let mut visited: Vec<String> = Vec::new();
    assert!(matches!(engine.next_step(), Step::Do(Request::Fetch { .. })));
    assert!(matches!(engine.on_reply(page("<a>")), Step::Continue));
    loop {
        match engine.next_step() {
            Step::Do(Request::ExtractLinks { selector, .. }) => {
                visited.push(selector.clone());
                let reply = Reply::Links {
                    hrefs: vec![format!("http://{}", selector)],
                    selection: None,
                };
                match engine.on_reply(reply) {
                    Step::Do(Request::Fetch { url }) => {
                        assert_eq!(url, format!("http://{}", selector));
                    },
                    other => panic!("expected a fetch, got {:?}", other),
                }
                assert!(matches!(engine.on_reply(page("<a>")), Step::Continue));
            },
            Step::Finished => break,
            other => panic!("unexpected step {:?}", other),
        }
    }
    assert_eq!(visited, vec!["a", "b", "c"]);
}

#[test]
fn click_with_no_links_skips_its_body() {
    let script = "open \"http://root\"\nclick \"a\"\n  wait 9";
    let parsed = parse_script(script).unwrap();
    let mut engine = MslEngine::new();
    engine.start(parsed);
    assert!(matches!(engine.next_step(), Step::Do(Request::Fetch { .. })));
    assert!(matches!(engine.on_reply(page("<a>")), Step::Continue));
    assert!(matches!(engine.next_step(), Step::Do(Request::ExtractLinks { .. })));
    match engine.on_reply(Reply::Links { hrefs: Vec::new(), selection: None }) {
        Step::Do(Request::Note { message }) => {
            assert_eq!(message, "No links found for selector: a");
        },
        other => panic!("expected a note, got {:?}", other),
    }
    assert!(matches!(engine.on_reply(Reply::Done), Step::Continue));
    assert!(matches!(engine.next_step(), Step::Finished));
}

#[test]
fn set_binds_the_evaluated_selection_value() {
    let script = "open \"http://root\"\nclick \"h1\"\n  set user = text";
    let parsed = parse_script(script).unwrap();
    let mut engine = MslEngine::new();
    engine.start(parsed);
    assert!(matches!(engine.next_step(), Step::Do(Request::Fetch { .. })));
    assert!(matches!(engine.on_reply(page("<a>")), Step::Continue));
    assert!(matches!(engine.next_step(), Step::Do(Request::ExtractLinks { .. })));
    let reply = Reply::Links {
        hrefs: vec!["http://root/u".to_string()],
        selection: Some(Selection { text: "Alice".to_string(), attributes: Vec::new() }),
    };
    assert!(matches!(engine.on_reply(reply), Step::Do(Request::Fetch { .. })));
    assert!(matches!(engine.on_reply(page("<b>")), Step::Continue));
    assert!(matches!(engine.next_step(), Step::Continue));
    assert_eq!(env_get(&engine.variables, "user"), Some("Alice".to_string()));
    assert!(matches!(engine.next_step(), Step::Finished));
}

#[test]
fn media_command_plans_filtered_downloads() {
    let script = "open \"http://root\"\nmedia\n  image\n    where src ~ \"cdn\"\n    extensions jpg";
    let parsed = parse_script(script).unwrap();
    let mut engine = MslEngine::new();
    engine.start(parsed);
    assert!(matches!(engine.next_step(), Step::Do(Request::Fetch { .. })));
    assert!(matches!(engine.on_reply(page("<a>")), Step::Continue));
    match engine.next_step() {
        Step::Do(Request::ExtractMedia { base_url, .. }) => {
            assert_eq!(base_url, "http://root");
        },
        other => panic!("expected media extraction, got {:?}", other),
    }
    let items = vec![
        msl_engine::scraper::MediaItem {
            url: "http://cdn/a.jpg".to_string(),
            media_type: msl_engine::ast::MediaType::Image,
            filename: None,
            attributes: Vec::new(),
        },
        msl_engine::scraper::MediaItem {
            url: "http://cdn/b.gif".to_string(),
            media_type: msl_engine::ast::MediaType::Image,
            filename: None,
            attributes: Vec::new(),
        },
        msl_engine::scraper::MediaItem {
            url: "http://other/c.jpg".to_string(),
            media_type: msl_engine::ast::MediaType::Image,
            filename: None,
            attributes: Vec::new(),
        },
    ];
    match engine.on_reply(Reply::MediaItems { items }) {
        Step::Do(Request::Download { jobs }) => {
            assert_eq!(jobs.len(), 1);
            assert_eq!(jobs[0].url, "http://cdn/a.jpg");
            assert_eq!(jobs[0].filename, "a.jpg");
            assert_eq!(jobs[0].dest_dir, "./downloaded_media");
        },
        other => panic!("expected downloads, got {:?}", other),
    }
    assert!(matches!(engine.on_reply(Reply::Done), Step::Continue));
    assert!(matches!(engine.next_step(), Step::Finished));
}

#[test]
fn save_is_a_logged_no_op() {
    let parsed = parse_script("save to \"./out\"").unwrap();
    let mut engine = MslEngine::new();
    engine.start(parsed);
    match engine.next_step() {
        Step::Do(Request::Note { message }) => assert_eq!(message, "Saving to: ./out"),
        other => panic!("expected a note, got {:?}", other),
    }
    assert!(matches!(engine.on_reply(Reply::Done), Step::Continue));
    assert!(matches!(engine.next_step(), Step::Finished));
}

#[test]
fn collaborator_failure_aborts_the_run() {
    let parsed = parse_script("open \"http://down\"").unwrap();
    let mut engine = MslEngine::new();
    engine.start(parsed);
    assert!(matches!(engine.next_step(), Step::Do(Request::Fetch { .. })));
    let failure = Reply::Failed {
        error: MslError::TransportError("connection refused".to_string()),
    };
    match engine.on_reply(failure) {
        Step::Failed(MslError::TransportError(m)) => assert_eq!(m, "connection refused"),
        other => panic!("expected failure, got {:?}", other),
    }
}

#[test]
fn later_bindings_shadow_earlier_ones() {
    let env = vec![
        ("k".to_string(), "old".to_string()),
        ("other".to_string(), "x".to_string()),
        ("k".to_string(), "new".to_string()),
    ];
    assert_eq!(env_get(&env, "k"), Some("new".to_string()));
    assert_eq!(env_get(&env, "other"), Some("x".to_string()));
    assert_eq!(env_get(&env, "missing"), None);
}
