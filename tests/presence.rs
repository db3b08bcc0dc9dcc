use mc_presence::ident::normalize;
use mc_presence::notify::{decide, resolve_name, NotificationRequest, ServerTarget};
use mc_presence::poll::{menu_player_names, menu_summary, poll_step, PollConfig, DEFAULT_PORT};
use mc_presence::presence::{
    contains_text, PlayerRef, PresenceSnapshot, TrackerState, TransitionEvent,
};
use mc_presence::text::{decimal_string, push_joined};

fn player(id: &str, name: &str) -> PlayerRef {
    PlayerRef { id: id.to_string(), name: name.to_string() }
}

fn snapshot(online: u64, max: u64, sample: Option<Vec<PlayerRef>>) -> PresenceSnapshot {
    PresenceSnapshot { online_count: online, max_count: max, sample }
}

fn target() -> ServerTarget {
    ServerTarget { host: "example.com".to_string(), port: 25565 }
}

fn alex_and_sam() -> Vec<PlayerRef> {
    vec![player("1111-2222-3333-4444", "Alex"), player("5555-6666-7777-8888", "Sam")]
}

fn known(state: &TrackerState) -> Vec<String> {
    let mut ids = state.known_ids.clone();
    ids.sort();
    ids
}

#[test]
fn normalize_strips_separators() {
    assert_eq!(normalize("1111-2222-3333-4444"), "1111222233334444");
    assert_eq!(normalize("abc"), "abc");
    assert_eq!(normalize(""), "");
    assert_eq!(normalize("--"), "");
}

#[test]
fn normalize_is_idempotent() {
    let once = normalize("9999-aaaa-bbbb-cccc");
    assert_eq!(normalize(&once), once);
}

#[test]
fn normalize_equates_forms_of_one_id() {
    assert_eq!(normalize("1111-2222-3333-4444"), normalize("1111222233334444"));
    assert_eq!(normalize("11-11-2222"), normalize("1111-2222"));
    assert_ne!(normalize("1111-2222"), normalize("2222-1111"));
}

#[test]
fn scenario_a_first_observation() {
    let s = TrackerState::new();
    let (next, events) = s.update(&snapshot(2, 20, Some(alex_and_sam())));
    // The first observation has nothing to diff against, so it announces
    // nobody. Read literally, the set-difference rule alone would announce
    // every player of the first sample; the first-observation rule wins.
    assert!(events.is_empty());
    assert!(s.known_ids.is_empty());
    assert_eq!(known(&next), vec!["1111222233334444".to_string(), "5555666677778888".to_string()]);
    assert_eq!(next.last_online_count, 2);
}

#[test]
fn scenario_b_one_player_joins() {
    let s = TrackerState::new();
    let (a, _) = s.update(&snapshot(2, 20, Some(alex_and_sam())));
    let mut sample = alex_and_sam();
    sample.push(player("9999-aaaa-bbbb-cccc", "Steve"));
    let snap = snapshot(3, 20, Some(sample));
    let (b, events) = a.update(&snap);
    assert_eq!(events, vec![TransitionEvent::PlayersJoined { names: vec!["Steve".to_string()] }]);
    let req = decide(&events[0], &target(), &snap);
    assert_eq!(req.summary, "Steve joined example.com:25565");
    assert_eq!(b.last_online_count, 3);
    assert_eq!(b.known_ids.len(), 3);
}

#[test]
fn scenario_c_sample_lost_resets() {
    let s = TrackerState {
        known_ids: vec!["1111222233334444".to_string()],
        last_online_count: 5,
    };
    let (next, events) = s.update(&snapshot(5, 20, None));
    assert!(events.is_empty());
    assert!(next.known_ids.is_empty());
    assert_eq!(next.last_online_count, 0);
}

#[test]
fn scenario_d_watch_list() {
    let s = TrackerState::new();
    let watch = vec!["Steve".to_string()];
    let sample = vec![player("9999-aaaa-bbbb-cccc", "Steve"), player("1111-2222-3333-4444", "Alex")];
    let snap = snapshot(2, 20, Some(sample));
    let (next, events) = s.update_watched(&snap, &watch);
    assert_eq!(
        events,
        vec![TransitionEvent::WatchedPlayerJoined { id: "9999aaaabbbbcccc".to_string() }]
    );
    assert_eq!(next.known_ids, vec!["9999aaaabbbbcccc".to_string()]);
    let req = decide(&events[0], &target(), &snap);
    assert_eq!(req.summary, "Steve joined example.com:25565");
}

#[test]
fn watch_list_by_normalized_id() {
    let s = TrackerState::new();
    let watch = vec!["1111222233334444".to_string()];
    let sample = vec![player("9999-aaaa-bbbb-cccc", "Steve"), player("1111-2222-3333-4444", "Alex")];
    let (_, events) = s.update_watched(&snapshot(2, 20, Some(sample)), &watch);
    assert_eq!(
        events,
        vec![TransitionEvent::WatchedPlayerJoined { id: "1111222233334444".to_string() }]
    );
}

#[test]
fn watch_list_known_player_is_not_announced_again() {
    let watch = vec!["Steve".to_string()];
    let snap = snapshot(1, 20, Some(vec![player("9999-aaaa-bbbb-cccc", "Steve")]));
    let (a, first) = TrackerState::new().update_watched(&snap, &watch);
    assert_eq!(first.len(), 1);
    let (_, second) = a.update_watched(&snap, &watch);
    assert!(second.is_empty());
}

#[test]
fn watch_list_duplicate_entry_yields_one_event() {
    let watch = vec!["Steve".to_string()];
    let sample = vec![player("9999-aaaa-bbbb-cccc", "Steve"), player("9999aaaabbbbcccc", "Steve")];
    let (_, events) = TrackerState::new().update_watched(&snapshot(2, 20, Some(sample)), &watch);
    assert_eq!(events.len(), 1);
}

#[test]
fn empty_watch_list_tracks_everyone() {
    let s = TrackerState::new();
    let snap = snapshot(2, 20, Some(alex_and_sam()));
    let (x, ex) = s.update(&snap);
    let (y, ey) = s.update_watched(&snap, &Vec::new());
    assert_eq!(x, y);
    assert_eq!(ex, ey);
}

#[test]
fn update_twice_yields_no_join() {
    let s = TrackerState {
        known_ids: vec!["1111222233334444".to_string()],
        last_online_count: 7,
    };
    let snap = snapshot(2, 20, Some(alex_and_sam()));
    let (a, first) = s.update(&snap);
    assert_eq!(first, vec![TransitionEvent::PlayersJoined { names: vec!["Sam".to_string()] }]);
    let (_, second) = a.update(&snap);
    assert!(second.is_empty());
}

#[test]
fn no_stale_ids_after_update() {
    let s = TrackerState {
        known_ids: vec!["deadbeef".to_string(), "1111222233334444".to_string()],
        last_online_count: 3,
    };
    let (next, _) = s.update(&snapshot(1, 20, Some(vec![player("5555-6666-7777-8888", "Sam")])));
    assert_eq!(next.known_ids, vec!["5555666677778888".to_string()]);
}

#[test]
fn unknown_join_fires_when_previous_count_is_greater() {
    // The heuristic compares the previous count against the current one as
    // it was observed: it fires when the count went down, not up.
    let s = TrackerState {
        known_ids: vec!["1111222233334444".to_string(), "5555666677778888".to_string()],
        last_online_count: 5,
    };
    let (_, down) = s.update(&snapshot(3, 20, Some(alex_and_sam())));
    assert_eq!(down, vec![TransitionEvent::CountIncreasedUnknownIdentity]);
    let (_, up) = s.update(&snapshot(9, 20, Some(alex_and_sam())));
    assert!(up.is_empty());
    let req = decide(&down[0], &target(), &snapshot(3, 20, Some(alex_and_sam())));
    assert_eq!(req.summary, "An unknown player joined example.com:25565");
}

#[test]
fn several_joined_names_are_comma_separated() {
    let s = TrackerState { known_ids: vec!["abcd".to_string()], last_online_count: 1 };
    let snap = snapshot(2, 20, Some(alex_and_sam()));
    let (_, events) = s.update(&snap);
    assert_eq!(
        events,
        vec![TransitionEvent::PlayersJoined { names: vec!["Alex".to_string(), "Sam".to_string()] }]
    );
    let req = decide(&events[0], &target(), &snap);
    assert_eq!(req, NotificationRequest { summary: "Alex, Sam joined example.com:25565".to_string() });
}

#[test]
fn first_sample_after_reset_announces_nobody() {
    let s = TrackerState { known_ids: vec!["abcd".to_string()], last_online_count: 9 };
    let (lost, _) = s.update(&snapshot(9, 20, None));
    let (back, events) = lost.update(&snapshot(2, 20, Some(alex_and_sam())));
    assert!(events.is_empty());
    assert_eq!(back.known_ids.len(), 2);
}

#[test]
fn watched_name_falls_back_to_id() {
    let sample = vec![player("9999-aaaa-bbbb-cccc", "")];
    assert_eq!(resolve_name(&"9999aaaabbbbcccc".to_string(), &sample), "9999aaaabbbbcccc");
    let named = vec![player("9999-aaaa-bbbb-cccc", "Steve")];
    assert_eq!(resolve_name(&"9999aaaabbbbcccc".to_string(), &named), "Steve");
    let ev = TransitionEvent::WatchedPlayerJoined { id: "abcd".to_string() };
    let t = ServerTarget { host: "h".to_string(), port: 1 };
    assert_eq!(decide(&ev, &t, &snapshot(0, 0, None)).summary, "abcd joined h:1");
}

#[test]
fn decimal_writing() {
    assert_eq!(decimal_string(0), "0");
    assert_eq!(decimal_string(7), "7");
    assert_eq!(decimal_string(25565), "25565");
    assert_eq!(decimal_string(u64::MAX), "18446744073709551615");
}

#[test]
fn joining_texts() {
    let mut out = "x:".to_string();
    push_joined(&mut out, &vec!["a".to_string(), "b".to_string(), "c".to_string()], ", ");
    assert_eq!(out, "x:a, b, c");
    let mut empty = String::new();
    push_joined(&mut empty, &Vec::new(), ", ");
    assert_eq!(empty, "");
}

#[test]
fn contains_text_finds_members() {
    let v = vec!["a".to_string(), "bc".to_string()];
    assert!(contains_text(&v, &"bc".to_string()));
    assert!(!contains_text(&v, &"b".to_string()));
}

#[test]
fn menu_texts() {
    let snap = snapshot(2, 20, Some(alex_and_sam()));
    assert_eq!(menu_summary(&snap), "2 / 20");
    assert_eq!(menu_player_names(&snap), vec!["Alex".to_string(), "Sam".to_string()]);
    assert!(menu_player_names(&snapshot(40, 100, None)).is_empty());
    assert_eq!(menu_summary(&snapshot(40, 100, None)), "40 / 100");
}

#[test]
fn poll_step_raises_one_notification_per_event() {
    let config = PollConfig { target: target(), refresh_seconds: 30, watch_list: Vec::new() };
    assert_eq!(config.target.port, DEFAULT_PORT);
    let start = TrackerState { known_ids: vec!["1111222233334444".to_string()], last_online_count: 1 };
    let (a, first) = poll_step(&start, &config, &snapshot(2, 20, Some(alex_and_sam())));
    assert_eq!(first, vec![NotificationRequest { summary: "Sam joined example.com:25565".to_string() }]);
    let (_, initial) = poll_step(&TrackerState::new(), &config, &snapshot(2, 20, Some(alex_and_sam())));
    assert!(initial.is_empty());
    let mut sample = alex_and_sam();
    sample.push(player("9999-aaaa-bbbb-cccc", "Steve"));
    let (_, second) = poll_step(&a, &config, &snapshot(3, 20, Some(sample)));
    assert_eq!(second, vec![NotificationRequest { summary: "Steve joined example.com:25565".to_string() }]);
    let (c, lost) = poll_step(&a, &config, &snapshot(3, 20, None));
    assert!(lost.is_empty());
    assert_eq!(c.last_online_count, 0);
}
