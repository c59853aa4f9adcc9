use jellyfin_presence::covers::{get_cover_url, has_primary};
use jellyfin_presence::discord::build_activity;
use jellyfin_presence::jellyfin::NowPlayingItem;

const BASE: &str = "http://media:8096";
const KEY: &str = "k3y";

fn item(kind: Option<&str>) -> NowPlayingItem {
    NowPlayingItem {
        id: "ITEM".to_string(),
        name: "Title".to_string(),
        artists: None,
        runtime_ticks: None,
        album_id: None,
        parent_id: None,
        item_type: kind.map(|k| k.to_string()),
        series_id: None,
        series_name: None,
        season_id: None,
        season_number: None,
        episode_number: None,
        production_year: None,
        image_tags: None,
    }
}

fn url(id: &str) -> String {
    format!("http://media:8096/Items/{}/Images/Primary?maxWidth=512&quality=90&api_key=k3y", id)
}

fn with_primary(mut it: NowPlayingItem) -> NowPlayingItem {
    it.image_tags = Some(vec![("Backdrop".to_string(), "b".to_string()), ("Primary".to_string(), "p".to_string())]);
    it
}

#[test]
fn primary_tag_detected() {
    assert!(!has_primary(&item(Some("Audio"))));
    let mut it = item(Some("Audio"));
    it.image_tags = Some(vec![("Logo".to_string(), "x".to_string())]);
    assert!(!has_primary(&it));
    assert!(has_primary(&with_primary(item(Some("Audio")))));
}

#[test]
fn audio_cover_precedence() {
    let mut it = with_primary(item(Some("Audio")));
    it.album_id = Some("ALBUM".to_string());
    it.parent_id = Some("PARENT".to_string());
    assert_eq!(get_cover_url(&it, BASE, KEY), Some(url("ITEM")));
    it.image_tags = None;
    assert_eq!(get_cover_url(&it, BASE, KEY), Some(url("ALBUM")));
    it.album_id = None;
    assert_eq!(get_cover_url(&it, BASE, KEY), Some(url("PARENT")));
    it.parent_id = None;
    assert_eq!(get_cover_url(&it, BASE, KEY), None);
}

#[test]
fn episode_cover_precedence() {
    let mut it = with_primary(item(Some("Episode")));
    it.season_id = Some("SEASON".to_string());
    it.series_id = Some("SERIES".to_string());
    assert_eq!(get_cover_url(&it, BASE, KEY), Some(url("SEASON")));
    it.season_id = None;
    assert_eq!(get_cover_url(&it, BASE, KEY), Some(url("SERIES")));
    it.series_id = None;
    assert_eq!(get_cover_url(&it, BASE, KEY), Some(url("ITEM")));
    it.image_tags = None;
    assert_eq!(get_cover_url(&it, BASE, KEY), None);
}

#[test]
fn movie_cover_precedence() {
    let mut it = with_primary(item(Some("Movie")));
    it.parent_id = Some("PARENT".to_string());
    assert_eq!(get_cover_url(&it, BASE, KEY), Some(url("ITEM")));
    it.image_tags = None;
    assert_eq!(get_cover_url(&it, BASE, KEY), Some(url("PARENT")));
    it.parent_id = None;
    assert_eq!(get_cover_url(&it, BASE, KEY), Some(url("ITEM")));
}

#[test]
fn other_and_untyped_covers() {
    assert_eq!(get_cover_url(&item(Some("MusicVideo")), BASE, KEY), Some(url("ITEM")));
    assert_eq!(get_cover_url(&item(None), BASE, KEY), None);
}

#[test]
fn episode_activity_text() {
    let mut it = item(Some("Episode"));
    it.season_number = Some(1);
    it.episode_number = Some(12);
    it.series_name = Some("Show".to_string());
    it.season_id = Some("SEASON".to_string());
    let a = build_activity(&it, 100, 1400, 1_000_000, BASE, KEY);
    assert_eq!(a.details, "Title");
    assert_eq!(a.state, "S01E12 \u{2013} Show");
    assert_eq!(a.large_image, url("SEASON"));
    assert_eq!(a.start, 999_900);
    assert_eq!(a.end, 1_001_300);
    assert_eq!(a.activity_type, 3);
    it.episode_number = None;
    assert_eq!(build_activity(&it, 1, 10, 0, BASE, KEY).state, "Show");
    it.series_name = None;
    assert_eq!(build_activity(&it, 1, 10, 0, BASE, KEY).state, "TV Show");
}

#[test]
fn audio_activity_text() {
    let mut it = item(Some("Audio"));
    it.artists = Some(vec!["A".to_string(), "B".to_string(), "C".to_string()]);
    let a = build_activity(&it, 30, 200, 500, BASE, KEY);
    assert_eq!(a.state, "A, B, C");
    assert_eq!(a.activity_type, 2);
    assert_eq!(a.large_image, "default");
    it.artists = None;
    assert_eq!(build_activity(&it, 30, 200, 500, BASE, KEY).state, "");
}

#[test]
fn movie_activity_text() {
    let mut it = item(Some("Movie"));
    it.production_year = Some(1999);
    assert_eq!(build_activity(&it, 1, 1, 0, BASE, KEY).state, "1999");
    it.production_year = Some(-7);
    assert_eq!(build_activity(&it, 1, 1, 0, BASE, KEY).state, "-7");
    it.production_year = None;
    assert_eq!(build_activity(&it, 1, 1, 0, BASE, KEY).state, "Movie");
    assert_eq!(build_activity(&item(Some("Book")), 1, 1, 0, BASE, KEY).state, "");
}

#[test]
fn activity_timestamps() {
    let it = item(Some("Movie"));
    // Elapsed past the runtime is shown as the runtime.
    let a = build_activity(&it, 500, 300, 10_000, BASE, KEY);
    assert_eq!(a.start, 9_700);
    assert_eq!(a.end, 10_000);
    // Unknown runtime: a one-second span.
    let a = build_activity(&it, 500, 0, 10_000, BASE, KEY);
    assert_eq!(a.start, 9_500);
    assert_eq!(a.end, 9_501);
    // Extreme values saturate.
    let a = build_activity(&it, i64::MAX, 0, -10, BASE, KEY);
    assert_eq!(a.start, i64::MIN);
}
