//! What a file name says about the episode it holds, and the names that are
//! made from that.

use vstd::prelude::*;
use vstd::string::StringExecFns;
use crate::paths::{split_chars, split_on, texts};
use crate::sanitize::{is_whitespace, is_whitespace_char};
use crate::text::{
    chars_of, contains_chars, contains_text, decimal, decimal_chars, decimal_padded,
    decimal_padded_chars, lowercased, parse_u32, parsed_u32, push_all, replace_all, replaced,
    slice_chars, string_of, text_of, to_lower, to_upper, uppercased,
};

verus! {

/// What is known of a show and one of its episodes.
#[derive(Debug)]
pub struct AnimeInfo {
    pub title: String,
    pub title_romaji: Option<String>,
    pub title_english: Option<String>,
    pub episode: Option<u32>,
    pub season: Option<u32>,
    pub year: Option<u32>,
    pub format: Option<String>,
}

/// What a file name was found to say.
#[derive(Debug)]
pub struct ParsedFilename {
    pub anime_title: String,
    pub episode_number: Option<u32>,
    pub season: Option<u32>,
    pub group: Option<String>,
    pub resolution: Option<String>,
    pub video_codec: Option<String>,
    pub audio_codec: Option<String>,
}

/// One show as the catalogue service describes it.
#[derive(Debug)]
pub struct AniListResponse {
    pub id: u32,
    pub title: AniListTitle,
    pub format: Option<String>,
    pub episodes: Option<u32>,
    pub season_year: Option<u32>,
    pub cover_image: Option<AniListCoverImage>,
}

/// The titles of a show in the catalogue.
#[derive(Debug)]
pub struct AniListTitle {
    pub romaji: Option<String>,
    pub english: Option<String>,
    pub native: Option<String>,
}

/// The cover pictures of a show in the catalogue.
#[derive(Debug)]
pub struct AniListCoverImage {
    pub large: Option<String>,
    pub medium: Option<String>,
}

/// `ParsedFilename` with every text as text.
pub struct Parsed {
    pub anime_title: Seq<char>,
    pub episode_number: Option<u32>,
    pub season: Option<u32>,
    pub group: Option<Seq<char>>,
    pub resolution: Option<Seq<char>>,
    pub video_codec: Option<Seq<char>>,
    pub audio_codec: Option<Seq<char>>,
}

impl View for ParsedFilename {
    type V = Parsed;

    open spec fn view(&self) -> Parsed {
        Parsed {
            anime_title: self.anime_title@,
            episode_number: self.episode_number,
            season: self.season,
            group: text_of(self.group),
            resolution: text_of(self.resolution),
            video_codec: text_of(self.video_codec),
            audio_codec: text_of(self.audio_codec),
        }
    }
}

/// How many white-space characters `s` starts with.
pub open spec fn leading_space(s: Seq<char>) -> nat
    decreases s.len(),
{
    if s.len() > 0 && is_whitespace(s[0]) {
        1 + leading_space(s.drop_first())
    } else {
        0
    }
}

/// How many white-space characters `s` ends with.
pub open spec fn trailing_space(s: Seq<char>) -> nat
    decreases s.len(),
{
    if s.len() > 0 && is_whitespace(s.last()) {
        1 + trailing_space(s.drop_last())
    } else {
        0
    }
}

/// `s` without the white space at its two ends.
pub open spec fn without_outer_space(s: Seq<char>) -> Seq<char> {
    let rest = s.skip(leading_space(s) as int);
    rest.take(rest.len() - trailing_space(rest))
}

/// `s` without the white space at its two ends.
pub fn trim_space(s: &Vec<char>) -> (out: Vec<char>)
    ensures
        out@ == without_outer_space(s@),
{
    let mut start: usize = 0;
    proof {
        assert(s@.skip(0) == s@);
    }
    while start < s.len() && is_whitespace_char(s[start])
        invariant
            start <= s.len(),
            leading_space(s@) == start + leading_space(s@.skip(start as int)),
        decreases s.len() - start,
    {
        proof {
            assert(s@.skip(start as int).drop_first() == s@.skip(start + 1));
        }
        start = start + 1;
    }
    let ghost rest = s@.skip(start as int);
    let mut end: usize = s.len();
    proof {
        assert(rest.take(s.len() - start) == rest);
    }
    while end > start && is_whitespace_char(s[end - 1])
        invariant
            start <= end <= s.len(),
            rest == s@.skip(start as int),
            trailing_space(rest) == (s.len() - end) + trailing_space(rest.take(end - start)),
        decreases end,
    {
        proof {
            assert(rest.take(end - start).drop_last() == rest.take(end - start - 1));
        }
        end = end - 1;
    }
    proof {
        assert(rest.take(end - start) == s@.subrange(start as int, end as int));
    }
    slice_chars(s, start, end)
}

/// The title that a file name starts with: what stands before its first
/// `[`, or all of it if it has none, without the white space at the ends.
pub open spec fn leading_title(filename: Seq<char>) -> Seq<char> {
    without_outer_space(split_on(filename, '[')[0])
}

/// The title that a file name starts with: see `leading_title`. This is
/// what is taken where nothing better is known of the name.
pub fn extract_anime_title(filename: &str) -> (title: String)
    ensures
        title@ == leading_title(filename@),
{
    let parts = split_chars(&chars_of(filename), '[');
    proof {
        assert(texts(parts@)[0] == parts@[0]@);
    }
    string_of(&trim_space(&parts[0]))
}

/// The kinds of element of a file name that are read.
#[derive(Clone, Copy, Debug)]
pub enum ElementKind {
    Title,
    Episode,
    Season,
    Group,
    Resolution,
    VideoTerm,
    AudioTerm,
}

/// One element that the `anitomy` parser found: `anitomy::Element`, a
/// category and a text. Nothing is read of it here; it is known only
/// because `anitomy::Elements` hands its elements out as a list of it.
#[verifier::external_type_specification]
#[verifier::external_body]
pub struct ExElement(anitomy::Element);

/// What the `anitomy` parser found in a file name: `anitomy::Elements`, a
/// list of elements. What it holds is told by `first_elements`.
#[verifier::external_type_specification]
#[verifier::external_body]
pub struct ExElements(anitomy::Elements);

/// For each kind, the text of the first element of that kind among the
/// elements, where there is one.
pub uninterp spec fn first_elements(elements: anitomy::Elements) -> Map<ElementKind, Seq<char>>;

/// What a map of elements holds for a kind.
pub open spec fn element_of(found: Map<ElementKind, Seq<char>>, kind: ElementKind) -> Option<
    Seq<char>,
> {
    if found.contains_key(kind) {
        Some(found[kind])
    } else {
        None
    }
}

/// Runs `anitomy::Anitomy::parse` on a fresh parser from
/// `anitomy::Anitomy::new`. The parser hands the elements back whether it
/// counts the name as parsed, `Ok`, or not, `Err`. It panics on a name that
/// holds a NUL character, so such a name is not passed to it. Nothing is
/// claimed of what it finds: its reading of letters follows the locale
/// that the process runs in.
#[verifier::external_body]
fn parse_elements(filename: &str) -> (r: Result<anitomy::Elements, anitomy::Elements>)
    requires
        !filename@.contains('\0'),
{
    let mut parser = anitomy::Anitomy::new();
    parser.parse(filename)
}

/// `anitomy::Elements::get`: the first element of a category, if the
/// elements hold one of it. The kinds stand for anitomy's categories of the
/// same meaning.
#[verifier::external_body]
fn element_text(elements: &anitomy::Elements, kind: ElementKind) -> (r: Option<String>)
    ensures
        text_of(r) == element_of(first_elements(*elements), kind),
{
    let category = match kind {
        ElementKind::Title => anitomy::ElementCategory::AnimeTitle,
        ElementKind::Episode => anitomy::ElementCategory::EpisodeNumber,
        ElementKind::Season => anitomy::ElementCategory::AnimeSeason,
        ElementKind::Group => anitomy::ElementCategory::ReleaseGroup,
        ElementKind::Resolution => anitomy::ElementCategory::VideoResolution,
        ElementKind::VideoTerm => anitomy::ElementCategory::VideoTerm,
        ElementKind::AudioTerm => anitomy::ElementCategory::AudioTerm,
    };
    elements.get(category).map(|s| s.to_string())
}

/// The elements written out for a person to read, as their `Debug` form
/// gives them. Nothing is claimed of the text.
#[verifier::external_body]
fn describe_elements(elements: &anitomy::Elements) -> (text: String) {
    format!("{:?}", elements)
}

/// The elements of a file name that are read, each as text where it was
/// found.
#[derive(Debug)]
pub struct RawElements {
    pub title: Option<String>,
    pub episode: Option<String>,
    pub season: Option<String>,
    pub group: Option<String>,
    pub resolution: Option<String>,
    pub video_term: Option<String>,
    pub audio_term: Option<String>,
}

/// `RawElements` with every text as text.
pub struct Found {
    pub title: Option<Seq<char>>,
    pub episode: Option<Seq<char>>,
    pub season: Option<Seq<char>>,
    pub group: Option<Seq<char>>,
    pub resolution: Option<Seq<char>>,
    pub video_term: Option<Seq<char>>,
    pub audio_term: Option<Seq<char>>,
}

impl View for RawElements {
    type V = Found;

    open spec fn view(&self) -> Found {
        Found {
            title: text_of(self.title),
            episode: text_of(self.episode),
            season: text_of(self.season),
            group: text_of(self.group),
            resolution: text_of(self.resolution),
            video_term: text_of(self.video_term),
            audio_term: text_of(self.audio_term),
        }
    }
}

/// The codec that a video term in lower case names: H.264 for a term that
/// holds `h264`, `x264` or `avc`; else H.265 for one that holds `h265`,
/// `x265` or `hevc`; else none.
pub open spec fn codec_named(lower: Seq<char>) -> Option<Seq<char>> {
    if contains_text(lower, "h264"@) || contains_text(lower, "x264"@) || contains_text(
        lower,
        "avc"@,
    ) {
        Some("H.264"@)
    } else if contains_text(lower, "h265"@) || contains_text(lower, "x265"@) || contains_text(
        lower,
        "hevc"@,
    ) {
        Some("H.265"@)
    } else {
        None
    }
}

/// The codec that a video term in lower case names: see `codec_named`.
pub fn codec_of(lower: &str) -> (codec: Option<String>)
    ensures
        text_of(codec) == codec_named(lower@),
{
    let term = chars_of(lower);
    if contains_chars(&term, &chars_of("h264")) || contains_chars(&term, &chars_of("x264"))
        || contains_chars(&term, &chars_of("avc")) {
        Some(String::from_str("H.264"))
    } else if contains_chars(&term, &chars_of("h265")) || contains_chars(&term, &chars_of("x265"))
        || contains_chars(&term, &chars_of("hevc")) {
        Some(String::from_str("H.265"))
    } else {
        None
    }
}

/// A number out of an element, if the element is there and writes one.
pub open spec fn number_in(element: Option<Seq<char>>) -> Option<u32> {
    match element {
        Some(text) => parsed_u32(text),
        None => None,
    }
}

/// What the elements of a file name say. The title is the title element,
/// or, where that is missing or empty, the title that the name starts
/// with. Episode and season are the numbers that their elements write.
/// Group and resolution are taken as found. The video codec is named after
/// the video term in lower case, and the audio codec is the audio term in
/// upper case.
pub open spec fn parsed_from(found: Found, filename: Seq<char>) -> Parsed {
    Parsed {
        anime_title: match found.title {
            Some(title) => if title.len() == 0 {
                leading_title(filename)
            } else {
                title
            },
            None => leading_title(filename),
        },
        episode_number: number_in(found.episode),
        season: number_in(found.season),
        group: found.group,
        resolution: found.resolution,
        video_codec: match found.video_term {
            Some(term) => codec_named(lowercased(term)),
            None => None,
        },
        audio_codec: match found.audio_term {
            Some(term) => Some(uppercased(term)),
            None => None,
        },
    }
}

fn number_of(element: &Option<String>) -> (n: Option<u32>)
    ensures
        n == number_in(text_of(*element)),
{
    match element {
        Some(text) => parse_u32(&chars_of(text.as_str())),
        None => None,
    }
}

fn copy_text(text: &Option<String>) -> (copy: Option<String>)
    ensures
        text_of(copy) == text_of(*text),
{
    match text {
        Some(t) => Some(t.clone()),
        None => None,
    }
}

/// What the elements of a file name say: see `parsed_from`.
pub fn parsed_from_elements(raw: &RawElements, filename: &str) -> (parsed: ParsedFilename)
    ensures
        parsed@ == parsed_from(raw@, filename@),
{
    let anime_title = match &raw.title {
        Some(title) => if title.as_str().unicode_len() == 0 {
            extract_anime_title(filename)
        } else {
            title.clone()
        },
        None => extract_anime_title(filename),
    };
    let video_codec = match &raw.video_term {
        Some(term) => codec_of(to_lower(term.as_str()).as_str()),
        None => None,
    };
    let audio_codec = match &raw.audio_term {
        Some(term) => Some(to_upper(term.as_str())),
        None => None,
    };
    ParsedFilename {
        anime_title,
        episode_number: number_of(&raw.episode),
        season: number_of(&raw.season),
        group: copy_text(&raw.group),
        resolution: copy_text(&raw.resolution),
        video_codec,
        audio_codec,
    }
}

/// What is said of a file name that the parser does not count as parsed.
pub open spec fn parse_failure(detail: Seq<char>) -> Seq<char> {
    "Anitomy解析失败: "@ + detail
}

/// Reads a file name with the `anitomy` parser. Where the parser counts
/// the name as parsed, the result is what its elements say, whatever
/// elements it found; where it does not, the error quotes the elements. See
/// `parsed_from_elements` for what given elements say.
pub fn parse_anime_filename(filename: &str) -> (r: Result<ParsedFilename, String>)
    requires
        !filename@.contains('\0'),
    ensures
        match r {
            Ok(parsed) => exists|found: Found| parsed@ == parsed_from(found, filename@),
            Err(message) => exists|detail: Seq<char>| message@ == parse_failure(detail),
        },
{
    match parse_elements(filename) {
        Ok(elements) => {
            let raw = RawElements {
                title: element_text(&elements, ElementKind::Title),
                episode: element_text(&elements, ElementKind::Episode),
                season: element_text(&elements, ElementKind::Season),
                group: element_text(&elements, ElementKind::Group),
                resolution: element_text(&elements, ElementKind::Resolution),
                video_term: element_text(&elements, ElementKind::VideoTerm),
                audio_term: element_text(&elements, ElementKind::AudioTerm),
            };
            let parsed = parsed_from_elements(&raw, filename);
            proof {
                assert(parsed@ == parsed_from(raw@, filename@));
            }
            Ok(parsed)
        },
        Err(elements) => {
            let detail = describe_elements(&elements);
            let mut message = String::from_str("Anitomy解析失败: ");
            message.append(detail.as_str());
            proof {
                assert(message@ == parse_failure(detail@));
            }
            Err(message)
        },
    }
}

/// Whether a file name can be handed to the parser: it holds no NUL
/// character.
pub fn can_parse(filename: &str) -> (ok: bool)
    ensures
        ok == !filename@.contains('\0'),
{
    let chars = chars_of(filename);
    let mut i: usize = 0;
    while i < chars.len()
        invariant
            i <= chars.len(),
            chars@ == filename@,
            forall|j: int| 0 <= j < i ==> chars@[j] != '\0',
        decreases chars.len() - i,
    {
        if chars[i] == '\0' {
            proof {
                assert(filename@[i as int] == '\0');
            }
            return false;
        }
        i = i + 1;
    }
    true
}

/// The file name that a template gives for an episode: `{title}` becomes
/// the title, then `{title_romaji}` the romanised title, or the title
/// where there is none, then `{episode}` the episode in two digits; then
/// `{season}` becomes `S` and the season in two digits if the season is
/// known, and `{year}` the year if it is known.
pub open spec fn filename_from(
    title: Seq<char>,
    title_romaji: Option<Seq<char>>,
    season: Option<u32>,
    year: Option<u32>,
    episode: u32,
    template: Seq<char>,
) -> Seq<char> {
    let with_title = replaced(template, "{title}"@, title);
    let with_romaji = replaced(
        with_title,
        "{title_romaji}"@,
        match title_romaji {
            Some(r) => r,
            None => title,
        },
    );
    let with_episode = replaced(with_romaji, "{episode}"@, decimal_padded(episode as nat, 2));
    let with_season = match season {
        Some(s) => replaced(with_episode, "{season}"@, "S"@ + decimal_padded(s as nat, 2)),
        None => with_episode,
    };
    match year {
        Some(y) => replaced(with_season, "{year}"@, decimal(y as nat)),
        None => with_season,
    }
}

/// The file name that a template gives for an episode: see
/// `filename_from`.
pub fn generate_filename(anime_info: &AnimeInfo, episode: u32, template: &str) -> (out: String)
    ensures
        out@ == filename_from(
            anime_info.title@,
            text_of(anime_info.title_romaji),
            anime_info.season,
            anime_info.year,
            episode,
            template@,
        ),
{
    let title = chars_of(anime_info.title.as_str());
    let mut text = replace_all(&chars_of(template), &chars_of("{title}"), &title);
    let romaji = match &anime_info.title_romaji {
        Some(r) => chars_of(r.as_str()),
        None => chars_of(anime_info.title.as_str()),
    };
    text = replace_all(&text, &chars_of("{title_romaji}"), &romaji);
    text = replace_all(&text, &chars_of("{episode}"), &decimal_padded_chars(episode as u128, 2));
    match anime_info.season {
        Some(s) => {
            let mut season = chars_of("S");
            push_all(&mut season, &decimal_padded_chars(s as u128, 2));
            text = replace_all(&text, &chars_of("{season}"), &season);
        },
        None => {},
    }
    match anime_info.year {
        Some(y) => {
            text = replace_all(&text, &chars_of("{year}"), &decimal_chars(y as u128));
        },
        None => {},
    }
    string_of(&text)
}

} // verus!
