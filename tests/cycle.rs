use jellyfin_presence::gap::{gap_step, ticks_to_secs, Config, GapDecision};
use jellyfin_presence::jellyfin::{NowPlayingItem, PlayState, Session};
use jellyfin_presence::records::GapState;
use jellyfin_presence::state::{decide, run_cycle, Action, State};

const T: i64 = 10_000_000;

fn item(id: &str, runtime_secs: i64) -> NowPlayingItem {
    NowPlayingItem {
        id: id.to_string(),
        name: id.to_string(),
        artists: None,
        runtime_ticks: Some(runtime_secs * T),
        album_id: None,
        parent_id: None,
        item_type: Some("Movie".to_string()),
        series_id: None,
        series_name: None,
        season_id: None,
        season_number: None,
        episode_number: None,
        production_year: None,
        image_tags: None,
    }
}

fn playing(id: &str, it: NowPlayingItem, secs: i64) -> Vec<Session> {
    vec![Session {
        id: id.to_string(),
        username: "alice".to_string(),
        now_playing_item: Some(it),
        play_state: Some(PlayState { position_ticks: Some(secs * T) }),
    }]
}

fn idle(id: &str) -> Vec<Session> {
    vec![Session { id: id.to_string(), username: "alice".to_string(), now_playing_item: None, play_state: None }]
}

fn cfg() -> Config {
    Config { update_interval_secs: 5, rewind_secs: 40, max_gap_secs: 40 }
}

fn emitted(a: &Action) -> Option<i64> {
    match a {
        Action::Emit { elapsed, .. } => Some(*elapsed),
        _ => None,
    }
}

fn gap_of(st: &State, id: &str) -> Option<GapState> {
    st.records.iter().find(|r| r.id == id).and_then(|r| r.gap)
}

#[test]
fn ticks_convert_to_whole_seconds() {
    assert_eq!(ticks_to_secs(0), 0);
    assert_eq!(ticks_to_secs(25 * T + 9_999_999), 25);
    assert_eq!(ticks_to_secs(-15_000_000), -1);
    assert_eq!(ticks_to_secs(i64::MIN), i64::MIN / T);
}

#[test]
fn short_item_is_held() {
    let c = cfg();
    let mut st = State::new();
    run_cycle(&mut st, playing("S", item("short", 20), 5), "Alice", &c, 0);
    for now in 1..=41u64 {
        let a = run_cycle(&mut st, idle("S"), "Alice", &c, now);
        assert!(matches!(a, Action::Keep));
        assert!(gap_of(&st, "S").unwrap().base_elapsed.is_none());
    }
    assert_eq!(gap_step(None, 5, 20, &c, 7).1, GapDecision::Hold(5));
}

#[test]
fn early_stop_is_held() {
    let c = cfg();
    let mut st = State::new();
    run_cycle(&mut st, playing("S", item("long", 100), 10), "Alice", &c, 0);
    for now in 1..=41u64 {
        let a = run_cycle(&mut st, idle("S"), "Alice", &c, now);
        assert!(matches!(a, Action::Keep));
    }
    let g = GapState { started_at: 3, base_elapsed: None };
    assert_eq!(gap_step(Some(g), 10, 100, &c, 43).1, GapDecision::Hold(10));
}

#[test]
fn long_item_rewinds_and_advances() {
    let c = cfg();
    let mut st = State::new();
    let a = run_cycle(&mut st, playing("S", item("film", 300), 100), "Alice", &c, 0);
    assert!(matches!(a, Action::Keep));
    let a = run_cycle(&mut st, idle("S"), "Alice", &c, 10);
    assert_eq!(emitted(&a), Some(60));
    assert_eq!(gap_of(&st, "S").unwrap().base_elapsed, Some(60));
    let a = run_cycle(&mut st, idle("S"), "Alice", &c, 20);
    assert_eq!(emitted(&a), Some(70));
    let a = run_cycle(&mut st, idle("S"), "Alice", &c, 35);
    assert_eq!(emitted(&a), Some(85));
    assert_eq!(gap_of(&st, "S").unwrap().base_elapsed, Some(60));
    assert_eq!(gap_of(&st, "S").unwrap().started_at, 10);
}

#[test]
fn base_is_not_recomputed() {
    let c = cfg();
    let g = GapState { started_at: 0, base_elapsed: Some(60) };
    let (g2, d) = gap_step(Some(g), 200, 300, &c, 10);
    assert_eq!(g2.base_elapsed, Some(60));
    assert_eq!(d, GapDecision::Synthesize(70));
    let (g3, _) = gap_step(None, 100, 300, &c, 10);
    assert_eq!(g3.base_elapsed, Some(60));
    assert_eq!(g3.started_at, 10);
}

#[test]
fn long_gap_expires_and_forgets() {
    let c = cfg();
    let mut st = State::new();
    run_cycle(&mut st, playing("S", item("film", 300), 100), "Alice", &c, 0);
    run_cycle(&mut st, idle("S"), "Alice", &c, 10);
    let a = run_cycle(&mut st, idle("S"), "Alice", &c, 50);
    assert_eq!(emitted(&a), Some(100));
    let a = run_cycle(&mut st, idle("S"), "Alice", &c, 51);
    assert!(matches!(a, Action::Clear));
    assert!(st.records.is_empty());
    assert!(st.active_session_id.is_none());
    assert_eq!(st.last_update, 51);
    assert_eq!(gap_step(Some(GapState { started_at: 0, base_elapsed: Some(60) }), 100, 300, &c, 41).1, GapDecision::Expire);
}

#[test]
fn finished_item_clears_on_first_gap_cycle() {
    let c = Config { update_interval_secs: 5, rewind_secs: 40, max_gap_secs: 1_000_000 };
    let mut st = State::new();
    run_cycle(&mut st, playing("S", item("film", 300), 300), "Alice", &c, 100);
    let a = run_cycle(&mut st, idle("S"), "Alice", &c, 101);
    assert!(matches!(a, Action::Clear));
    assert!(st.records.is_empty());
    assert_eq!(gap_step(None, 300, 300, &c, 0).1, GapDecision::Complete);
}

#[test]
fn updates_are_rate_limited_but_expiry_is_not() {
    let c = cfg();
    let mut st = State::new();
    let a = run_cycle(&mut st, playing("S", item("film", 300), 100), "Alice", &c, 5);
    assert_eq!(emitted(&a), Some(100));
    let a = run_cycle(&mut st, playing("S", item("film", 300), 102), "Alice", &c, 7);
    assert!(matches!(a, Action::Keep));
    let a = run_cycle(&mut st, playing("S", item("film", 300), 105), "Alice", &c, 10);
    assert_eq!(emitted(&a), Some(105));

    // An expiry inside the window still clears at once.
    let mut st = State::new();
    run_cycle(&mut st, playing("S", item("film", 300), 100), "Alice", &c, 0);
    run_cycle(&mut st, idle("S"), "Alice", &c, 10);
    let a = run_cycle(&mut st, idle("S"), "Alice", &c, 49);
    assert_eq!(emitted(&a), Some(99));
    let a = run_cycle(&mut st, idle("S"), "Alice", &c, 51);
    assert!(matches!(a, Action::Clear));
}

#[test]
fn paused_item_clears() {
    let c = cfg();
    let mut st = State::new();
    let a = run_cycle(&mut st, playing("S", item("film", 300), 0), "Alice", &c, 5);
    assert!(matches!(a, Action::Clear));
    assert!(st.active_session_id.is_none());
}

#[test]
fn real_item_ends_gap() {
    let c = cfg();
    let mut st = State::new();
    run_cycle(&mut st, playing("S", item("film", 300), 100), "Alice", &c, 0);
    run_cycle(&mut st, idle("S"), "Alice", &c, 10);
    assert!(gap_of(&st, "S").is_some());
    let a = run_cycle(&mut st, playing("S", item("film", 300), 120), "Alice", &c, 16);
    assert_eq!(emitted(&a), Some(120));
    assert!(gap_of(&st, "S").is_none());
    assert_eq!(st.active_session_id.as_deref(), Some("S"));
}

#[test]
fn no_session_clears_when_due() {
    let c = cfg();
    let mut st = State::new();
    assert!(matches!(decide(&mut st, None, &c, 3), Action::Keep));
    assert!(matches!(decide(&mut st, None, &c, 5), Action::Clear));
    assert_eq!(st.last_update, 5);
    // A recalled session with nothing cached clears too.
    let a = run_cycle(&mut st, idle("unknown"), "Alice", &c, 10);
    assert!(matches!(a, Action::Clear));
}
