use cosmox_plugin_anime::anime::define::{AnimeSource, AnimeStatus, Gender, Season};

#[test]
fn anime_status_names_round_trip() {
    for v in [
        AnimeStatus::Watching,
        AnimeStatus::Completed,
        AnimeStatus::OnHold,
        AnimeStatus::Dropped,
        AnimeStatus::Planned,
    ] {
        assert_eq!(AnimeStatus::parse_name(v.as_str()), Ok(v));
        assert_eq!(v.as_str().parse::<AnimeStatus>(), Ok(v));
    }
    assert_eq!(AnimeStatus::OnHold.as_str(), "OnHold");
    assert_eq!(AnimeStatus::default(), AnimeStatus::Watching);
}

#[test]
fn anime_status_rejects_other_text() {
    assert_eq!(AnimeStatus::parse_name("watching"), Err("unknown AnimeStatus: watching".to_string()));
    assert_eq!(AnimeStatus::parse_name(""), Err("unknown AnimeStatus: ".to_string()));
}

#[test]
fn anime_source_names_round_trip() {
    for v in [
        AnimeSource::Original,
        AnimeSource::Manga,
        AnimeSource::LightNovel,
        AnimeSource::VisualNovel,
        AnimeSource::Game,
        AnimeSource::Other,
    ] {
        assert_eq!(AnimeSource::parse_name(v.as_str()), Ok(v));
    }
    assert_eq!(AnimeSource::LightNovel.as_str(), "LightNovel");
    assert_eq!(AnimeSource::default(), AnimeSource::Original);
    assert_eq!(AnimeSource::parse_name("Novel"), Err("unknown AnimeSource: Novel".to_string()));
}

#[test]
fn gender_names_round_trip() {
    for v in [Gender::Male, Gender::Female, Gender::Other] {
        assert_eq!(Gender::parse_name(v.as_str()), Ok(v));
    }
    assert_eq!(Gender::Female.as_str(), "Female");
    assert_eq!("X".parse::<Gender>(), Err("unknown Gender: X".to_string()));
}

#[test]
fn season_default_has_no_number() {
    assert_eq!(Season::default(), Season { season_number: None });
}
