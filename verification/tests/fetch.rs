use wiktionary_defs::download::{
    download_all, download_one, fetch_action, fetch_bounce_back, fetch_start, word_to_path,
    word_to_url, DefinedWord, FetchAction, FetchError, FetchEvent, FetchState, INITIAL_DELAY_MS,
    MAX_DELAY_MS,
};
use wiktionary_defs::parser::ParsedWord;
use wiktionary_defs::valid_link;

fn word(name: &str, link: &str) -> ParsedWord {
    ParsedWord { name: name.to_string(), link: link.to_string() }
}

fn body(text: &str) -> FetchEvent {
    FetchEvent::Body { text: text.to_string() }
}

#[test]
fn url_is_prefix_followed_by_link() {
    assert_eq!(word_to_url(&word("cat", "/wiki/cat")), "https://en.wiktionary.org//wiki/cat");
    assert_eq!(word_to_url(&word("cat", "")), "https://en.wiktionary.org/");
}

#[test]
fn path_goes_by_name_not_by_link() {
    assert_eq!(word_to_path(&word("cat", "/wiki/Cat")), "./data/defs/cat.html");
    assert_eq!(word_to_path(&word("cat", "/wiki/other")), "./data/defs/cat.html");
    assert_eq!(word_to_path(&word("", "/wiki/x")), "./data/defs/.html");
}

#[test]
fn link_with_marker_is_not_valid() {
    assert!(valid_link("/wiki/cat"));
    assert!(valid_link(""));
    assert!(valid_link("/w/index"));
    assert!(!valid_link("/w/index.php?title=qat&action=edit&redlink=1"));
    assert!(!valid_link("https://en.wiktionary.org/w/index.php"));
    assert!(!valid_link("/w/index.php"));
}

#[test]
fn fetch_starts_with_the_cache() {
    let entry = word("cat", "/wiki/cat");
    let state = fetch_start();
    assert_eq!(state, FetchState::Lookup);
    assert_eq!(
        fetch_action(&entry, &state),
        FetchAction::ReadCache { path: "./data/defs/cat.html".to_string() }
    );
}

#[test]
fn cache_hit_ends_without_network() {
    let entry = word("cat", "/wiki/cat");
    let state = download_one(
        &entry,
        fetch_start(),
        FetchEvent::CacheHit { contents: "<html>cat</html>".to_string() },
    );
    assert_eq!(state, FetchState::Done { outcome: Ok("<html>cat</html>".to_string()) });
    assert_eq!(fetch_action(&entry, &state), FetchAction::Finish);
    let later = download_one(&entry, state, FetchEvent::Status { status: 200 });
    assert_eq!(later, FetchState::Done { outcome: Ok("<html>cat</html>".to_string()) });
}

#[test]
fn cache_hit_wins_over_unfetchable_link() {
    let entry = word("qat", "/w/index.php?title=qat&action=edit");
    let state =
        download_one(&entry, fetch_start(), FetchEvent::CacheHit { contents: "x".to_string() });
    assert_eq!(state, FetchState::Done { outcome: Ok("x".to_string()) });
}

#[test]
fn unfetchable_link_is_skipped() {
    let entry = word("qat", "/w/index.php?title=qat&action=edit&redlink=1");
    let state = download_one(&entry, fetch_start(), FetchEvent::CacheMiss);
    assert_eq!(state, FetchState::Done { outcome: Err(FetchError::Skip) });
    assert_eq!(fetch_action(&entry, &state), FetchAction::Finish);
}

#[test]
fn first_run_fetches_and_caches() {
    let entry = word("cat", "/wiki/cat");
    let page = "<html><body><h2 id=\"English\">English</h2></body></html>";
    let state = download_one(&entry, fetch_start(), FetchEvent::CacheMiss);
    assert_eq!(state, FetchState::Sleeping { delay: 100 });
    assert_eq!(fetch_action(&entry, &state), FetchAction::Sleep { millis: 100 });
    let state = download_one(&entry, state, FetchEvent::Slept);
    assert_eq!(
        fetch_action(&entry, &state),
        FetchAction::Get { url: "https://en.wiktionary.org//wiki/cat".to_string() }
    );
    let state = download_one(&entry, state, FetchEvent::Status { status: 200 });
    assert_eq!(state, FetchState::Reading);
    assert_eq!(fetch_action(&entry, &state), FetchAction::ReadBody);
    let state = download_one(&entry, state, body(page));
    assert_eq!(
        fetch_action(&entry, &state),
        FetchAction::WriteCache {
            path: "./data/defs/cat.html".to_string(),
            contents: page.to_string()
        }
    );
    let state = download_one(&entry, state, FetchEvent::Written);
    assert_eq!(state, FetchState::Done { outcome: Ok(page.to_string()) });
}

#[test]
fn backoff_delays_double_up_to_the_ceiling() {
    let entry = word("cat", "/wiki/cat");
    let mut state = download_one(&entry, fetch_start(), FetchEvent::CacheMiss);
    let mut waits: Vec<u64> = Vec::new();
    let mut requests = 0;
    loop {
        match fetch_action(&entry, &state) {
            FetchAction::Sleep { millis } => {
                assert!(millis <= MAX_DELAY_MS);
                waits.push(millis);
                state = download_one(&entry, state, FetchEvent::Slept);
            }
            FetchAction::Get { .. } => {
                requests += 1;
                state = download_one(&entry, state, FetchEvent::Status { status: 429 });
            }
            FetchAction::Finish => break,
            other => panic!("unexpected action {:?}", other),
        }
    }
    assert_eq!(
        waits,
        vec![100, 200, 400, 800, 1600, 3200, 6400, 12800, 25600, 51200, 102400, 204800, 409600]
    );
    for (n, wait) in waits.iter().enumerate() {
        assert_eq!(*wait, INITIAL_DELAY_MS * 2u64.pow(n as u32));
    }
    assert_eq!(requests, 13);
    assert_eq!(state, FetchState::Done { outcome: Err(FetchError::RateLimitExhausted) });
}

#[test]
fn status_decides_what_follows() {
    assert_eq!(fetch_bounce_back(100, 200), FetchState::Reading);
    assert_eq!(fetch_bounce_back(100, 204), FetchState::Reading);
    assert_eq!(fetch_bounce_back(100, 299), FetchState::Reading);
    assert_eq!(fetch_bounce_back(100, 429), FetchState::Sleeping { delay: 200 });
    assert_eq!(fetch_bounce_back(300_000, 429), FetchState::Sleeping { delay: 600_000 });
    assert_eq!(
        fetch_bounce_back(300_001, 429),
        FetchState::Done { outcome: Err(FetchError::RateLimitExhausted) }
    );
    assert_eq!(
        fetch_bounce_back(u64::MAX, 429),
        FetchState::Done { outcome: Err(FetchError::RateLimitExhausted) }
    );
    assert_eq!(
        fetch_bounce_back(100, 404),
        FetchState::Done { outcome: Err(FetchError::UnexpectedStatus { status: 404 }) }
    );
    assert_eq!(
        fetch_bounce_back(100, 300),
        FetchState::Done { outcome: Err(FetchError::UnexpectedStatus { status: 300 }) }
    );
    assert_eq!(
        fetch_bounce_back(100, 199),
        FetchState::Done { outcome: Err(FetchError::UnexpectedStatus { status: 199 }) }
    );
    assert_eq!(
        fetch_bounce_back(100, 500),
        FetchState::Done { outcome: Err(FetchError::UnexpectedStatus { status: 500 }) }
    );
}

#[test]
fn success_after_two_rate_limits() {
    let entry = word("dog", "/wiki/dog");
    let mut state = download_one(&entry, fetch_start(), FetchEvent::CacheMiss);
    state = download_one(&entry, state, FetchEvent::Slept);
    state = download_one(&entry, state, FetchEvent::Status { status: 429 });
    assert_eq!(state, FetchState::Sleeping { delay: 200 });
    state = download_one(&entry, state, FetchEvent::Slept);
    state = download_one(&entry, state, FetchEvent::Status { status: 429 });
    assert_eq!(state, FetchState::Sleeping { delay: 400 });
    state = download_one(&entry, state, FetchEvent::Slept);
    assert_eq!(state, FetchState::Requesting { delay: 400 });
    state = download_one(&entry, state, FetchEvent::Status { status: 200 });
    state = download_one(&entry, state, body("woof"));
    state = download_one(&entry, state, FetchEvent::Written);
    assert_eq!(state, FetchState::Done { outcome: Ok("woof".to_string()) });
}

#[test]
fn transport_failure_is_terminal() {
    let entry = word("cat", "/wiki/cat");
    let mut state = download_one(&entry, fetch_start(), FetchEvent::CacheMiss);
    state = download_one(&entry, state, FetchEvent::Slept);
    state = download_one(&entry, state, FetchEvent::TransportFailed);
    assert_eq!(state, FetchState::Done { outcome: Err(FetchError::TransportFailure) });

    let reading = download_one(&entry, FetchState::Reading, FetchEvent::TransportFailed);
    assert_eq!(reading, FetchState::Done { outcome: Err(FetchError::TransportFailure) });
}

#[test]
fn persist_failure_is_told_apart() {
    let entry = word("cat", "/wiki/cat");
    let state = download_one(
        &entry,
        FetchState::Writing { body: "page".to_string() },
        FetchEvent::WriteFailed,
    );
    assert_eq!(state, FetchState::Done { outcome: Err(FetchError::PersistFailure) });
}

#[test]
fn event_out_of_turn_changes_nothing() {
    let entry = word("cat", "/wiki/cat");
    assert_eq!(download_one(&entry, fetch_start(), FetchEvent::Slept), FetchState::Lookup);
    assert_eq!(
        download_one(&entry, FetchState::Sleeping { delay: 100 }, FetchEvent::Written),
        FetchState::Sleeping { delay: 100 }
    );
    assert_eq!(
        download_one(&entry, FetchState::Requesting { delay: 100 }, body("x")),
        FetchState::Requesting { delay: 100 }
    );
    assert_eq!(
        download_one(&entry, FetchState::Reading, FetchEvent::Status { status: 200 }),
        FetchState::Reading
    );
    assert_eq!(
        download_one(&entry, FetchState::Writing { body: "b".to_string() }, FetchEvent::CacheMiss),
        FetchState::Writing { body: "b".to_string() }
    );
}

#[test]
fn download_all_lists_the_cached_entries() {
    let words = vec![
        word("cat", "/wiki/cat"),
        word("dog", "/wiki/dog"),
        word("qat", "/w/index.php?title=qat"),
        word("eel", "/wiki/eel"),
    ];
    let defined = download_all(words, &vec![true, false, true]);
    assert_eq!(
        defined,
        vec![
            DefinedWord { name: "cat".to_string(), path: "./data/defs/cat.html".to_string() },
            DefinedWord { name: "qat".to_string(), path: "./data/defs/qat.html".to_string() },
        ]
    );
    assert_eq!(download_all(Vec::new(), &vec![true]), Vec::new());
}

#[test]
fn longest_fetch_takes_twenty_nine_reports() {
    let entry = word("cat", "/wiki/cat");
    let mut state = fetch_start();
    let mut reports = 0;
    let mut requests = 0;
    loop {
        let event = match fetch_action(&entry, &state) {
            FetchAction::ReadCache { .. } => FetchEvent::CacheMiss,
            FetchAction::Sleep { .. } => FetchEvent::Slept,
            FetchAction::Get { .. } => {
                requests += 1;
                FetchEvent::Status { status: if requests < 13 { 429 } else { 200 } }
            }
            FetchAction::ReadBody => body("late"),
            FetchAction::WriteCache { .. } => FetchEvent::Written,
            FetchAction::Finish => break,
        };
        state = download_one(&entry, state, event);
        reports += 1;
    }
    assert_eq!(reports, 29);
    assert_eq!(state, FetchState::Done { outcome: Ok("late".to_string()) });
}
