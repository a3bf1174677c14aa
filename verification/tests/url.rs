use osm_tile_downloader::{TemplateError, Tile, UrlFormat};

#[test]
fn url_takes_subdomains_in_turn() {
    let format_str = "https://{s}.foo.com/{x}/{y}/{z}.png".to_owned();
    let mut url_fmt = UrlFormat::from_string(format_str);
    let tile = Tile::new(1, 2, 3);

    assert_eq!(url_fmt.tile_url(&tile).unwrap(), "https://a.foo.com/1/2/3.png");
    assert!(url_fmt.tile_url(&tile).unwrap().starts_with("https://b.foo.com"));
    assert!(url_fmt.tile_url(&tile).unwrap().starts_with("https://c.foo.com"));
    assert!(url_fmt.tile_url(&tile).unwrap().starts_with("https://a.foo.com"));
    assert!(url_fmt.tile_url(&tile).unwrap().starts_with("https://b.foo.com"));
    assert!(url_fmt.tile_url(&tile).unwrap().starts_with("https://c.foo.com"));
}

#[test]
fn url_cycle_goes_on_for_a_thousand_renders() {
    let mut url_fmt = UrlFormat::from_string("{s}".to_owned());
    let tile = Tile::new(0, 0, 1);
    let names = ["a", "b", "c"];
    for i in 0..1000usize {
        assert_eq!(url_fmt.tile_url(&tile).unwrap(), names[i % 3]);
    }
}

#[test]
fn url_get_inc_hands_out_the_count() {
    let mut url_fmt = UrlFormat::from_string(String::new());
    let taken: Vec<u64> = (0..7).map(|_| url_fmt.get_inc()).collect();
    assert_eq!(taken, vec![0, 1, 2, 3, 4, 5, 6]);
}

#[test]
fn url_count_goes_on_past_255() {
    let mut url_fmt = UrlFormat::from_string("{s}".to_owned());
    for expected in 0..1000u64 {
        assert_eq!(url_fmt.get_inc(), expected);
    }
    assert_eq!(url_fmt.get_inc(), 1000);
}

#[test]
fn url_subdomains_stay_in_turn_past_255() {
    let mut url_fmt = UrlFormat::from_string("{s}".to_owned());
    let tile = Tile::new(0, 0, 1);
    for _ in 0..253 {
        url_fmt.get_inc();
    }
    assert_eq!(url_fmt.tile_url(&tile).unwrap(), "b");
    assert_eq!(url_fmt.tile_url(&tile).unwrap(), "c");
    assert_eq!(url_fmt.tile_url(&tile).unwrap(), "a");
    assert_eq!(url_fmt.tile_url(&tile).unwrap(), "b");
    assert_eq!(url_fmt.get_inc(), 257);
}

#[test]
fn url_count_goes_on_through_renders() {
    let mut url_fmt = UrlFormat::from_string("{x}".to_owned());
    let tile = Tile::new(0, 0, 1);
    assert_eq!(url_fmt.get_inc(), 0);
    assert!(url_fmt.tile_url(&tile).is_ok());
    assert!(url_fmt.tile_url(&tile).is_ok());
    assert_eq!(url_fmt.get_inc(), 3);
}

#[test]
fn url_with_unknown_token_fails() {
    let mut url_fmt = UrlFormat::from_string("https://{s}.foo.com/{q}/{x}.png".to_owned());
    let tile = Tile::new(1, 2, 3);
    let error = url_fmt.tile_url(&tile).unwrap_err();
    assert_eq!(error, TemplateError::KeyError("Invalid key: q".to_owned()));
    assert_eq!(error.message(), "failed formatting URL: KeyError(Invalid key: q)");
}

#[test]
fn url_errors_come_in_three_kinds() {
    let tile = Tile::new(1, 2, 3);
    let mut open = UrlFormat::from_string("{x".to_owned());
    let error = open.tile_url(&tile).unwrap_err();
    assert_eq!(error, TemplateError::Invalid("Expected '}' before end of string".to_owned()));
    assert_eq!(
        error.message(),
        "failed formatting URL: Invalid(Expected '}' before end of string)"
    );
    let mut hex = UrlFormat::from_string("{x:x}".to_owned());
    let error = hex.tile_url(&tile).unwrap_err();
    assert_eq!(
        error,
        TemplateError::TypeError(
            "Unknown format code Some('x') for object of type 'str'".to_owned()
        )
    );
    assert!(error.message().starts_with("failed formatting URL: TypeError(Unknown"));
    let mut key = UrlFormat::from_string("{S}".to_owned());
    assert_eq!(
        key.tile_url(&tile),
        Err(TemplateError::KeyError("Invalid key: S".to_owned()))
    );
}

#[test]
fn url_failure_still_passes_the_turn() {
    let mut url_fmt = UrlFormat::from_string("{q}".to_owned());
    let tile = Tile::new(1, 2, 3);
    assert!(url_fmt.tile_url(&tile).is_err());
    assert_eq!(url_fmt.get_inc(), 1);
}

#[test]
fn url_malformed_templates_fail() {
    let tile = Tile::new(1, 2, 3);
    for template in ["{x", "x}", "{x{y}}", "{}", "{:5}", "{x:.}"] {
        let mut url_fmt = UrlFormat::from_string(template.to_owned());
        assert!(url_fmt.tile_url(&tile).is_err(), "{}", template);
    }
}

#[test]
fn url_without_tokens_is_the_template() {
    let mut url_fmt = UrlFormat::from_string("https://foo.com/tile.png".to_owned());
    assert_eq!(url_fmt.tile_url(&Tile::new(7, 8, 9)).unwrap(), "https://foo.com/tile.png");
}

#[test]
fn url_doubled_braces_stand_for_themselves() {
    let mut url_fmt = UrlFormat::from_string("{{x}}/{x}".to_owned());
    assert_eq!(url_fmt.tile_url(&Tile::new(7, 8, 9)).unwrap(), "{x}/7");
}

#[test]
fn url_writes_coordinates_in_decimal() {
    let mut url_fmt = UrlFormat::from_string("{z}/{x}/{y}".to_owned());
    let tile = Tile::new(usize::MAX, 0, 255);
    assert_eq!(url_fmt.tile_url(&tile).unwrap(), format!("255/{}/0", usize::MAX));
    let tile = Tile::new(135470, 87999, 18);
    assert_eq!(url_fmt.tile_url(&tile).unwrap(), "18/135470/87999");
}

#[test]
fn url_honours_width_and_alignment() {
    let mut url_fmt = UrlFormat::from_string("{x:>4}|{y:<3}|{z:^5}".to_owned());
    assert_eq!(url_fmt.tile_url(&Tile::new(7, 8, 9)).unwrap(), "   7|8  |  9  ");
}

#[test]
fn url_formats_are_equal_by_their_template() {
    let mut one = UrlFormat::from_string("{x}".to_owned());
    let other = UrlFormat::from_string("{x}".to_owned());
    let third = UrlFormat::from_string("{y}".to_owned());
    one.get_inc();
    assert!(one == other);
    assert!(one != third);
}

#[test]
fn tile_path_segments() {
    let (zoom, column, file) = Tile::new(135470, 87999, 18).path_segments();
    assert_eq!(zoom, "18");
    assert_eq!(column, "135470");
    assert_eq!(file, "87999.png");
    let (zoom, column, file) = Tile::new(0, 0, 0).path_segments();
    assert_eq!((zoom.as_str(), column.as_str(), file.as_str()), ("0", "0", "0.png"));
}

#[test]
fn tile_new_keeps_coordinates() {
    let tile = Tile::new(1, 2, 3);
    assert_eq!((tile.x, tile.y, tile.z), (1, 2, 3));
    assert_eq!(tile, Tile { x: 1, y: 2, z: 3 });
}
