use lazyradio::api::models::Station;
use lazyradio::cli::listing::{format_station_list, truncate_string};
use lazyradio::storage::favorites::{FavoritesData, FavoritesManager};
use lazyradio::tui::search_popup::SearchPopup;

fn station(uuid: &str, name: &str, votes: i32) -> Station {
    Station {
        station_uuid: uuid.to_string(),
        change_uuid: String::new(),
        name: name.to_string(),
        url: String::new(),
        url_resolved: String::new(),
        homepage: String::new(),
        favicon: String::new(),
        tags: String::new(),
        country: "Germany".to_string(),
        country_code: String::new(),
        state: String::new(),
        language: "de".to_string(),
        language_codes: String::new(),
        votes,
        codec: "AAC+".to_string(),
        bitrate: 0,
        hls: 0,
        last_check_ok: 1,
        last_check_time: String::new(),
        last_check_ok_time: String::new(),
        click_timestamp: String::new(),
        click_count: 0,
        click_trend: 0,
    }
}

#[test]
fn strings_are_cut_with_an_ellipsis() {
    assert_eq!(truncate_string("Germany", 4), "Ger\u{2026}");
    assert_eq!(truncate_string("Jazz", 4), "Jazz");
    assert_eq!(truncate_string("abc", 0), "\u{2026}");
}

#[test]
fn station_table_has_a_heading_and_rows() {
    assert_eq!(
        format_station_list(&[], 0, &FavoritesManager::new("f".to_string(), FavoritesData { stations: Vec::new() }), 80, 0),
        "No stations to display"
    );
    let mut favs = FavoritesManager::new("f".to_string(), FavoritesData { stations: Vec::new() });
    favs.add_at(&station("b", "Beta", 7), 1);
    let stations = vec![station("a", "Alpha", 3), station("b", "Beta", -2)];
    let table = format_station_list(&stations, 1, &favs, 80, 10);
    let lines: Vec<&str> = table.split('\n').collect();
    assert_eq!(lines[0], "");
    assert_eq!(lines[1], "No. \u{2605}  Station              Cntr Lang Codec Votes  ");
    assert_eq!(lines[2], "\u{2500}".repeat(80));
    assert_eq!(lines[3], "  \u{2606}  11 Alpha                Ger\u{2026} de   AAC+  3      ");
    assert_eq!(lines[4], "> \u{2605}  12 Beta                 Ger\u{2026} de   AAC+  -2     ");
    assert_eq!(lines.len(), 6);
}

#[test]
fn field_icons() {
    let p = SearchPopup::new(String::new());
    assert_eq!(p.get_icon_for_field("bitrate_min"), "\u{1f50a} ");
    assert_eq!(p.get_icon_for_field("tag"), "\u{1f3f7}\u{fe0f} ");
    assert_eq!(p.get_icon_for_field("unknown"), "\u{1f50d} ");
}
