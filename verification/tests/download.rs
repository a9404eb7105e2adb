use router::s3_download::{
    derive_local_path, download_file, holds_parent_component, FetchOutcome, S3Downloader, S3Err,
    TreeWalk, WalkAction, WalkEvent, LOCAL_ROOT, SEPARATOR,
};
use std::collections::HashMap;

fn downloader(root_prefix: &str, sub_prefix: &str) -> S3Downloader {
    S3Downloader::new(
        "ak".to_string(),
        "sk".to_string(),
        "cn-north-1".to_string(),
        "bucket".to_string(),
        root_prefix.to_string(),
        sub_prefix.to_string(),
    )
}

fn keys(listed: &[&str]) -> Vec<Option<String>> {
    listed.iter().map(|key| Some(key.to_string())).collect()
}

fn listed(page: &[&str]) -> WalkEvent {
    WalkEvent::Listed { keys: keys(page), next_token: None }
}

fn stored() -> WalkEvent {
    WalkEvent::Fetched { outcome: FetchOutcome::Stored }
}

fn list(prefix: &str) -> WalkAction {
    WalkAction::List { prefix: prefix.to_string(), token: None }
}

fn fetch(key: &str, path: &str) -> WalkAction {
    WalkAction::Fetch { key: key.to_string(), path: path.to_string() }
}

fn local(root_prefix: &str, key: &str) -> String {
    derive_local_path(root_prefix, key).unwrap()
}

fn failed(key: &str, message: &str) -> WalkAction {
    WalkAction::Failed { error: S3Err { key: key.to_string(), message: message.to_string() } }
}

/// Runs a walk against listings held in memory, and returns the fetches
/// it asked for with the way it ended. A key in `broken` fails to fetch.
fn run(
    mut walk: TreeWalk,
    store: &HashMap<&str, Vec<&str>>,
    broken: &[&str],
) -> (Vec<(String, String)>, WalkAction) {
    let mut fetched = Vec::new();
    for _ in 0..1000 {
        let event = match walk.action() {
            WalkAction::List { prefix, token } => {
                assert_eq!(token, None);
                match store.get(prefix.as_str()) {
                    Some(page) => listed(page),
                    None => WalkEvent::ListFailed { cause: "no such prefix".to_string() },
                }
            }
            WalkAction::Fetch { key, path } => {
                assert!(!key.ends_with(SEPARATOR));
                let broken_key = broken.contains(&key.as_str());
                fetched.push((key, path));
                if broken_key {
                    WalkEvent::Fetched {
                        outcome: FetchOutcome::GetFailed { cause: "denied".to_string() },
                    }
                } else {
                    stored()
                }
            }
            end => return (fetched, end),
        };
        walk = walk.step(event);
    }
    panic!("the walk did not end");
}

#[test]
fn test_s3_download() {
    let walk = S3Downloader::new(
        "xx".to_string(),
        "xx".to_string(),
        "cn-north-1".to_string(),
        "pre-web-static".to_string(),
        "huggingface".to_string(),
        "intfloat/multilingual-e5-large/9f78368af0062735ba99812349c562316e29f719".to_string(),
    )
    .download();
    assert_eq!(
        walk.action(),
        list("huggingface/intfloat/multilingual-e5-large/9f78368af0062735ba99812349c562316e29f719")
    );
    let result = match walk.step(WalkEvent::ListFailed { cause: "dispatch failure".to_string() }).action()
    {
        WalkAction::Failed { error } => Err(error),
        _ => Ok(()),
    };
    match result {
        Ok(_) => {
            println!("download success");
        }
        Err(err) => {
            println!("download error: {:?}", err);
        }
    }
}

#[test]
fn constants_name_the_local_root_and_the_separator() {
    assert_eq!(LOCAL_ROOT, "/tmp/");
    assert_eq!(SEPARATOR, '/');
}

#[test]
fn local_path_strips_the_root_prefix() {
    assert_eq!(
        local("huggingface/", "huggingface/modelA/main/config.json"),
        "/tmp/modelA/main/config.json"
    );
}

#[test]
fn local_path_strips_the_prefix_only_at_the_start() {
    assert_eq!(
        local("huggingface/", "huggingface/a/huggingface/b.bin"),
        "/tmp/a/huggingface/b.bin"
    );
    assert_eq!(local("hf/", "models/hf/b.bin"), "/tmp/models/hf/b.bin");
    assert_eq!(local("hf/", "hf"), "/tmp/hf");
    assert_eq!(local("hf/", "hf/"), "/tmp/");
    assert_eq!(local("", "a/b"), "/tmp/a/b");
    assert_eq!(local("hf/", ""), "/tmp/");
}

#[test]
fn local_path_counts_characters_not_bytes() {
    assert_eq!(local("mod\u{e8}les/", "mod\u{e8}les/\u{fc}.bin"), "/tmp/\u{fc}.bin");
}

#[test]
fn new_ends_the_root_prefix_with_the_separator() {
    let d = downloader("huggingface", "m/main");
    assert_eq!(d.root_prefix(), "huggingface/");
    assert_eq!(d.sub_prefix(), "m/main");
    assert_eq!(d.access_key(), "ak");
    assert_eq!(d.secret_key(), "sk");
    assert_eq!(d.region(), "cn-north-1");
    assert_eq!(d.bucket(), "bucket");
}

#[test]
fn new_keeps_a_root_prefix_that_ends_with_the_separator() {
    assert_eq!(downloader("huggingface/", "m").root_prefix(), "huggingface/");
    assert_eq!(downloader("a//", "m").root_prefix(), "a//");
    assert_eq!(downloader("", "m").root_prefix(), "/");
}

#[test]
fn download_lists_root_and_sub_prefix() {
    assert_eq!(downloader("huggingface", "modelA/main").download().action(), list("huggingface/modelA/main"));
    assert_eq!(downloader("huggingface", "").download().action(), list("huggingface/"));
}

#[test]
fn walk_fetches_leaves_in_listing_order() {
    let walk = downloader("huggingface", "m/main").download();
    let walk = walk.step(listed(&["huggingface/m/main/b.json", "huggingface/m/main/a.bin"]));
    assert_eq!(walk.action(), fetch("huggingface/m/main/b.json", "/tmp/m/main/b.json"));
    let walk = walk.step(stored());
    assert_eq!(walk.action(), fetch("huggingface/m/main/a.bin", "/tmp/m/main/a.bin"));
    let walk = walk.step(stored());
    assert_eq!(walk.action(), WalkAction::Finished);
}

#[test]
fn walk_of_an_empty_listing_finishes() {
    let walk = downloader("huggingface", "m").download().step(listed(&[]));
    assert_eq!(walk.action(), WalkAction::Finished);
}

#[test]
fn walk_lists_a_container_and_never_fetches_it() {
    let mut store = HashMap::new();
    store.insert("hf/m", vec!["hf/m/a.txt", "hf/m/dir/", "hf/m/z.txt"]);
    store.insert("hf/m/dir/", vec!["hf/m/dir/inner.bin", "hf/m/dir/deep/"]);
    store.insert("hf/m/dir/deep/", vec!["hf/m/dir/deep/x"]);
    let (fetched, end) = run(downloader("hf", "m").download(), &store, &[]);
    assert_eq!(end, WalkAction::Finished);
    let expected: Vec<(String, String)> = [
        ("hf/m/a.txt", "/tmp/m/a.txt"),
        ("hf/m/dir/inner.bin", "/tmp/m/dir/inner.bin"),
        ("hf/m/dir/deep/x", "/tmp/m/dir/deep/x"),
        ("hf/m/z.txt", "/tmp/m/z.txt"),
    ]
    .iter()
    .map(|(key, path)| (key.to_string(), path.to_string()))
    .collect();
    assert_eq!(fetched, expected);
}

#[test]
fn walk_recurses_into_a_container_first_in_the_listing() {
    let walk = downloader("hf", "m").download().step(listed(&["hf/m/dir/", "hf/m/a"]));
    assert_eq!(walk.action(), list("hf/m/dir/"));
    let walk = walk.step(listed(&["hf/m/dir/b"]));
    assert_eq!(walk.action(), fetch("hf/m/dir/b", "/tmp/m/dir/b"));
    let walk = walk.step(stored());
    assert_eq!(walk.action(), fetch("hf/m/a", "/tmp/m/a"));
}

#[test]
fn walk_skips_entries_without_a_key() {
    let walk = downloader("hf", "m").download().step(WalkEvent::Listed {
        keys: vec![None, Some("hf/m/a".to_string()), None],
        next_token: None,
    });
    assert_eq!(walk.action(), fetch("hf/m/a", "/tmp/m/a"));
    assert_eq!(walk.step(stored()).action(), WalkAction::Finished);
}

#[test]
fn walk_stops_at_the_first_failed_fetch() {
    let mut store = HashMap::new();
    store.insert("hf/m", vec!["hf/m/a", "hf/m/b", "hf/m/c"]);
    let (fetched, end) = run(downloader("hf", "m").download(), &store, &["hf/m/b"]);
    let asked: Vec<&str> = fetched.iter().map(|(key, _)| key.as_str()).collect();
    assert_eq!(asked, vec!["hf/m/a", "hf/m/b"]);
    assert_eq!(end, failed("hf/m/b", "Error getting object: denied"));
}

#[test]
fn walk_stops_at_a_failure_below_a_container() {
    let mut store = HashMap::new();
    store.insert("hf/m", vec!["hf/m/dir/", "hf/m/after"]);
    store.insert("hf/m/dir/", vec!["hf/m/dir/x", "hf/m/dir/y"]);
    let (fetched, end) = run(downloader("hf", "m").download(), &store, &["hf/m/dir/x"]);
    assert_eq!(fetched.len(), 1);
    assert_eq!(end, failed("hf/m/dir/x", "Error getting object: denied"));
}

#[test]
fn walk_stops_at_a_failed_listing() {
    let walk = downloader("hf", "m").download();
    let walk = walk.step(WalkEvent::ListFailed { cause: "access denied".to_string() });
    assert_eq!(walk.action(), failed("hf/m", "Error listing objects: access denied"));
    let mut store = HashMap::new();
    store.insert("hf/m", vec!["hf/m/a", "hf/m/gone/", "hf/m/b"]);
    let (fetched, end) = run(downloader("hf", "m").download(), &store, &[]);
    assert_eq!(fetched.len(), 1);
    assert_eq!(end, failed("hf/m/gone/", "Error listing objects: no such prefix"));
}

#[test]
fn walk_stays_failed() {
    let walk = downloader("hf", "m").download().step(listed(&["hf/m/a", "hf/m/b"]));
    let walk = walk.step(WalkEvent::Fetched {
        outcome: FetchOutcome::WriteFailed { cause: "disk full".to_string() },
    });
    let end = failed("hf/m/a", "Error writing file: disk full");
    assert_eq!(walk.action(), end);
    let walk = walk.step(stored());
    assert_eq!(walk.action(), end);
    let walk = walk.step(listed(&["hf/m/c"]));
    assert_eq!(walk.action(), end);
    let walk = walk.step(WalkEvent::ListFailed { cause: "late".to_string() });
    assert_eq!(walk.action(), end);
}

#[test]
fn walk_stays_finished() {
    let walk = downloader("hf", "m").download().step(listed(&[]));
    let walk = walk.step(listed(&["hf/m/a"]));
    assert_eq!(walk.action(), WalkAction::Finished);
    let walk = walk.step(stored());
    assert_eq!(walk.action(), WalkAction::Finished);
}

#[test]
fn walk_passes_over_an_answer_it_did_not_await() {
    let walk = downloader("hf", "m").download();
    let walk = walk.step(stored());
    assert_eq!(walk.action(), list("hf/m"));
    let walk = walk.step(listed(&["hf/m/a", "hf/m/b"]));
    let walk = walk.step(listed(&["hf/m/c"]));
    assert_eq!(walk.action(), fetch("hf/m/a", "/tmp/m/a"));
    let walk = walk.step(WalkEvent::ListFailed { cause: "late".to_string() });
    assert_eq!(walk.action(), fetch("hf/m/a", "/tmp/m/a"));
    let walk = walk.step(stored());
    assert_eq!(walk.action(), fetch("hf/m/b", "/tmp/m/b"));
}

#[test]
fn walk_follows_the_pages_of_a_listing() {
    let walk = downloader("hf", "m").download();
    let walk = walk.step(WalkEvent::Listed {
        keys: keys(&["hf/m/a", "hf/m/dir/"]),
        next_token: Some("t1".to_string()),
    });
    assert_eq!(walk.action(), fetch("hf/m/a", "/tmp/m/a"));
    let walk = walk.step(stored());
    assert_eq!(walk.action(), list("hf/m/dir/"));
    let walk = walk.step(listed(&["hf/m/dir/x"]));
    assert_eq!(walk.action(), fetch("hf/m/dir/x", "/tmp/m/dir/x"));
    let walk = walk.step(stored());
    assert_eq!(
        walk.action(),
        WalkAction::List { prefix: "hf/m".to_string(), token: Some("t1".to_string()) }
    );
    let walk = walk.step(WalkEvent::Listed {
        keys: keys(&["hf/m/b"]),
        next_token: Some("t2".to_string()),
    });
    assert_eq!(walk.action(), fetch("hf/m/b", "/tmp/m/b"));
    let walk = walk.step(stored());
    assert_eq!(
        walk.action(),
        WalkAction::List { prefix: "hf/m".to_string(), token: Some("t2".to_string()) }
    );
    let walk = walk.step(listed(&[]));
    assert_eq!(walk.action(), WalkAction::Finished);
}

#[test]
fn walk_follows_a_page_of_an_empty_page() {
    let walk = downloader("hf", "m").download();
    let walk =
        walk.step(WalkEvent::Listed { keys: vec![], next_token: Some("more".to_string()) });
    assert_eq!(
        walk.action(),
        WalkAction::List { prefix: "hf/m".to_string(), token: Some("more".to_string()) }
    );
}

#[test]
fn walk_gives_the_same_actions_when_run_again() {
    let mut store = HashMap::new();
    store.insert("hf/m", vec!["hf/m/a", "hf/m/dir/"]);
    store.insert("hf/m/dir/", vec!["hf/m/dir/b"]);
    let first = run(downloader("hf", "m").download(), &store, &[]);
    let second = run(downloader("hf", "m").download(), &store, &[]);
    assert_eq!(first, second);
    assert_eq!(first.0.len(), 2);
}

#[test]
fn download_file_names_the_stage_that_failed() {
    let cause = || "boom".to_string();
    let cases = vec![
        (FetchOutcome::GetFailed { cause: cause() }, "Error getting object: boom"),
        (FetchOutcome::NoParent, "Error getting parent path: /tmp/m/a"),
        (FetchOutcome::DirFailed { cause: cause() }, "Error creating parent path: boom"),
        (FetchOutcome::CreateFailed { cause: cause() }, "Error creating file: boom"),
        (FetchOutcome::BodyFailed { cause: cause() }, "Error collecting body: boom"),
        (FetchOutcome::WriteFailed { cause: cause() }, "Error writing file: boom"),
    ];
    for (outcome, message) in cases {
        assert_eq!(
            download_file("hf/", "hf/m/a", &outcome),
            Err(S3Err { key: "hf/m/a".to_string(), message: message.to_string() })
        );
    }
    assert_eq!(download_file("hf/", "hf/m/a", &FetchOutcome::Stored), Ok(()));
}

#[test]
fn walk_reports_each_stage_of_a_fetch() {
    let outcomes = vec![
        (FetchOutcome::NoParent, "Error getting parent path: /tmp/m/a"),
        (FetchOutcome::DirFailed { cause: "ro".to_string() }, "Error creating parent path: ro"),
        (FetchOutcome::CreateFailed { cause: "ro".to_string() }, "Error creating file: ro"),
        (FetchOutcome::BodyFailed { cause: "eof".to_string() }, "Error collecting body: eof"),
    ];
    for (outcome, message) in outcomes {
        let walk = downloader("hf", "m").download().step(listed(&["hf/m/a", "hf/m/b"]));
        let walk = walk.step(WalkEvent::Fetched { outcome });
        assert_eq!(walk.action(), failed("hf/m/a", message));
    }
}

/// The fetches of a descent into `prefix`: each key in order, a container
/// by descending into it.
fn descend(store: &HashMap<&str, Vec<&str>>, prefix: &str, fetched: &mut Vec<String>) {
    for key in store.get(prefix).unwrap() {
        if key.ends_with('/') {
            descend(store, key, fetched);
        } else {
            fetched.push(key.to_string());
        }
    }
}

#[test]
fn walk_fetches_what_a_descent_fetches() {
    let mut store = HashMap::new();
    store.insert("r/m", vec!["r/m/1", "r/m/a/", "r/m/2", "r/m/b/", "r/m/c/", "r/m/3"]);
    store.insert("r/m/a/", vec!["r/m/a/x/", "r/m/a/1", "r/m/a/y/"]);
    store.insert("r/m/a/x/", vec!["r/m/a/x/1", "r/m/a/x/2"]);
    store.insert("r/m/a/y/", vec![]);
    store.insert("r/m/b/", vec![]);
    store.insert("r/m/c/", vec!["r/m/c/d/"]);
    store.insert("r/m/c/d/", vec!["r/m/c/d/e/"]);
    store.insert("r/m/c/d/e/", vec!["r/m/c/d/e/leaf"]);
    let mut expected = Vec::new();
    descend(&store, "r/m", &mut expected);
    assert_eq!(expected.len(), 7);
    let (fetched, end) = run(downloader("r", "m").download(), &store, &[]);
    assert_eq!(end, WalkAction::Finished);
    let keys: Vec<String> = fetched.iter().map(|(key, _)| key.clone()).collect();
    assert_eq!(keys, expected);
    for (key, path) in fetched {
        assert_eq!(path, format!("/tmp/{}", &key["r/".len()..]));
    }
}

#[test]
fn parent_components_are_found() {
    for text in ["..", "../x", "x/..", "a/../b", "/..", "../", "a/b/../../c", "hf/..", "..//"] {
        assert!(holds_parent_component(text), "{}", text);
    }
    for text in [
        "", ".", "a", "a/b", "...", "..a", "a..", "a../b", "a/..b", "a/b..", ".../x", "x/...",
        "./x", "a/./b", "a..b", "\u{2026}/x", "..\u{e9}",
    ] {
        assert!(!holds_parent_component(text), "{}", text);
    }
}

#[test]
fn local_path_refuses_a_key_that_leaves_the_root() {
    for (key, path) in [
        ("huggingface/../etc/x", "/tmp/../etc/x"),
        ("huggingface/m/../../x", "/tmp/m/../../x"),
        ("huggingface/..", "/tmp/.."),
        ("../x", "/tmp/../x"),
        ("other/../x", "/tmp/other/../x"),
    ] {
        assert_eq!(
            derive_local_path("huggingface/", key),
            Err(S3Err {
                key: key.to_string(),
                message: format!("Error leaving local root: {}", path),
            })
        );
    }
}

#[test]
fn local_path_takes_dots_that_are_no_parent() {
    assert_eq!(local("hf/", "hf/.../x"), "/tmp/.../x");
    assert_eq!(local("hf/", "hf/a..b/..c"), "/tmp/a..b/..c");
    assert_eq!(local("hf/", "hf/./x"), "/tmp/./x");
    assert_eq!(local("../", "../x"), "/tmp/x");
}

#[test]
fn download_file_refuses_a_key_that_leaves_the_root() {
    let error = || {
        Err(S3Err {
            key: "huggingface/../etc/x".to_string(),
            message: "Error leaving local root: /tmp/../etc/x".to_string(),
        })
    };
    assert_eq!(
        download_file("huggingface/", "huggingface/../etc/x", &FetchOutcome::Stored),
        error()
    );
    assert_eq!(
        download_file(
            "huggingface/",
            "huggingface/../etc/x",
            &FetchOutcome::GetFailed { cause: "denied".to_string() }
        ),
        error()
    );
}

#[test]
fn walk_never_fetches_a_key_that_leaves_the_root() {
    let walk = downloader("huggingface", "m").download();
    let walk = walk.step(listed(&[
        "huggingface/m/a",
        "huggingface/m/../../etc/passwd",
        "huggingface/m/b",
    ]));
    assert_eq!(walk.action(), fetch("huggingface/m/a", "/tmp/m/a"));
    let walk = walk.step(stored());
    let end = || {
        failed(
            "huggingface/m/../../etc/passwd",
            "Error leaving local root: /tmp/m/../../etc/passwd",
        )
    };
    assert_eq!(walk.action(), end());
    let walk = walk.step(stored());
    assert_eq!(walk.action(), end());
    let walk = walk.step(listed(&["huggingface/m/c"]));
    assert_eq!(walk.action(), end());
}

#[test]
fn walk_stops_at_a_first_key_that_leaves_the_root() {
    let walk = downloader("huggingface", "m").download().step(listed(&["../x", "huggingface/m/a"]));
    assert_eq!(walk.action(), failed("../x", "Error leaving local root: /tmp/../x"));
    let mut store = HashMap::new();
    store.insert("hf/m", vec!["hf/m/dir/", "hf/m/after"]);
    store.insert("hf/m/dir/", vec!["hf/m/dir/ok", "hf/m/dir/../../../x"]);
    let (fetched, end) = run(downloader("hf", "m").download(), &store, &[]);
    assert_eq!(fetched.len(), 1);
    assert_eq!(
        end,
        failed("hf/m/dir/../../../x", "Error leaving local root: /tmp/m/dir/../../../x")
    );
}

#[test]
fn walk_lists_a_container_whose_name_climbs() {
    let walk = downloader("hf", "m").download().step(listed(&["hf/m/../"]));
    assert_eq!(walk.action(), list("hf/m/../"));
    let walk = walk.step(listed(&["hf/m/../x"]));
    assert_eq!(walk.action(), failed("hf/m/../x", "Error leaving local root: /tmp/m/../x"));
}
