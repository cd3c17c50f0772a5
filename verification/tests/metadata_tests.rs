use anime_file_manager::metadata::{
    can_parse, codec_of, extract_anime_title, generate_filename, parse_anime_filename,
    parsed_from_elements, trim_space, AnimeInfo, RawElements,
};
use anime_file_manager::text::{chars_of, string_of};

fn info(title: &str, romaji: Option<&str>, season: Option<u32>, year: Option<u32>) -> AnimeInfo {
    AnimeInfo {
        title: title.to_string(),
        title_romaji: romaji.map(String::from),
        title_english: None,
        episode: None,
        season,
        year,
        format: None,
    }
}

fn raw() -> RawElements {
    RawElements {
        title: None,
        episode: None,
        season: None,
        group: None,
        resolution: None,
        video_term: None,
        audio_term: None,
    }
}

#[test]
fn title_is_what_stands_before_the_first_bracket() {
    assert_eq!(extract_anime_title("Show Name [1080p].mkv"), "Show Name");
    assert_eq!(extract_anime_title("  Show Name  "), "Show Name");
    assert_eq!(extract_anime_title("[Group] Show - 01.mkv"), "");
    assert_eq!(extract_anime_title("Show [a] more [b]"), "Show");
    assert_eq!(extract_anime_title(""), "");
    assert_eq!(extract_anime_title("\u{3000}Show\t[x]"), "Show");
    assert_eq!(extract_anime_title(".Show."), ".Show.");
}

#[test]
fn trimming_white_space() {
    let trim = |s: &str| string_of(&trim_space(&chars_of(s)));
    for text in ["", " ", " a ", "a b", "\n\ta b \r\n", "\u{A0}x\u{2003}", " . "] {
        assert_eq!(trim(text), text.trim());
    }
}

#[test]
fn file_names_from_a_template() {
    let show = info("Title", Some("Taitoru"), Some(2), Some(2008));
    assert_eq!(
        generate_filename(&show, 3, "{title_romaji} - {season}E{episode} ({year})"),
        "Taitoru - S02E03 (2008)"
    );
    assert_eq!(generate_filename(&show, 12, "{title} {episode}"), "Title 12");
    assert_eq!(generate_filename(&show, 123, "{episode}"), "123");
}

#[test]
fn template_without_what_is_not_known() {
    let show = info("Title", None, None, None);
    assert_eq!(
        generate_filename(&show, 3, "{title_romaji} - {season}E{episode} ({year})"),
        "Title - {season}E03 ({year})"
    );
}

#[test]
fn title_is_filled_in_before_the_romanised_title() {
    // A title that holds a placeholder of a later step is filled in again.
    let show = info("{episode}", Some("R"), None, None);
    assert_eq!(generate_filename(&show, 7, "{title}"), "07");
}

#[test]
fn codecs_are_named_after_the_video_term() {
    assert_eq!(codec_of("h264"), Some("H.264".to_string()));
    assert_eq!(codec_of("x264-hi10p"), Some("H.264".to_string()));
    assert_eq!(codec_of("avc"), Some("H.264".to_string()));
    assert_eq!(codec_of("h265"), Some("H.265".to_string()));
    assert_eq!(codec_of("x265"), Some("H.265".to_string()));
    assert_eq!(codec_of("hevc"), Some("H.265".to_string()));
    assert_eq!(codec_of("hevc x264"), Some("H.264".to_string()));
    assert_eq!(codec_of("h.264"), None);
    assert_eq!(codec_of("H264"), None);
    assert_eq!(codec_of(""), None);
}

#[test]
fn elements_are_put_together() {
    let mut found = raw();
    found.title = Some("Toradora!".to_string());
    found.episode = Some("01".to_string());
    found.season = Some("2".to_string());
    found.group = Some("TaigaSubs".to_string());
    found.resolution = Some("1280x720".to_string());
    found.video_term = Some("X264".to_string());
    found.audio_term = Some("flac".to_string());
    let parsed = parsed_from_elements(&found, "ignored [x]");
    assert_eq!(parsed.anime_title, "Toradora!");
    assert_eq!(parsed.episode_number, Some(1));
    assert_eq!(parsed.season, Some(2));
    assert_eq!(parsed.group, Some("TaigaSubs".to_string()));
    assert_eq!(parsed.resolution, Some("1280x720".to_string()));
    assert_eq!(parsed.video_codec, Some("H.264".to_string()));
    assert_eq!(parsed.audio_codec, Some("FLAC".to_string()));
}

#[test]
fn missing_title_falls_back_on_the_file_name() {
    let parsed = parsed_from_elements(&raw(), "Some Show [720p].mkv");
    assert_eq!(parsed.anime_title, "Some Show");
    assert_eq!(parsed.episode_number, None);
    assert_eq!(parsed.season, None);
    assert_eq!(parsed.group, None);
    assert_eq!(parsed.video_codec, None);
    assert_eq!(parsed.audio_codec, None);
    let mut found = raw();
    found.title = Some(String::new());
    assert_eq!(parsed_from_elements(&found, "Other [x]").anime_title, "Other");
}

#[test]
fn numbers_that_are_no_numbers_are_left_out() {
    let mut found = raw();
    found.episode = Some("12.5".to_string());
    found.season = Some("99999999999".to_string());
    found.video_term = Some("Hi10P".to_string());
    let parsed = parsed_from_elements(&found, "x");
    assert_eq!(parsed.episode_number, None);
    assert_eq!(parsed.season, None);
    assert_eq!(parsed.video_codec, None);
}

#[test]
fn names_with_a_nul_character_cannot_be_parsed() {
    assert!(can_parse("abc"));
    assert!(can_parse(""));
    assert!(!can_parse("a\0b"));
}

#[test]
fn the_parser_reads_a_release_name() {
    let name = "[TaigaSubs]_Toradora!_(2008)_-_01v2_-_Tiger_and_Dragon_[1280x720_H.264_FLAC][1234ABCD].mkv";
    assert!(can_parse(name));
    let parsed = parse_anime_filename(name).expect("the parser counts this name as parsed");
    assert_eq!(parsed.anime_title, "Toradora!");
    assert_eq!(parsed.episode_number, Some(1));
    assert_eq!(parsed.group, Some("TaigaSubs".to_string()));
    assert_eq!(parsed.resolution, Some("1280x720".to_string()));
    assert_eq!(parsed.audio_codec, Some("FLAC".to_string()));
    // The video term is written `H.264`, which in lower case holds none of
    // the codec names.
    assert_eq!(parsed.video_codec, None);
}

#[test]
fn the_parser_names_the_codec_of_a_plain_term() {
    let name = "[Group] Some Show - 05 [x264][AAC].mkv";
    let parsed = parse_anime_filename(name).expect("the parser counts this name as parsed");
    assert_eq!(parsed.anime_title, "Some Show");
    assert_eq!(parsed.episode_number, Some(5));
    assert_eq!(parsed.video_codec, Some("H.264".to_string()));
    assert_eq!(parsed.audio_codec, Some("AAC".to_string()));
}

#[test]
fn a_name_that_the_parser_finds_nothing_in_is_an_error() {
    match parse_anime_filename("") {
        Err(message) => assert!(message.starts_with("Anitomy解析失败: "), "{}", message),
        Ok(parsed) => panic!("{:?}", parsed),
    }
}
