use echomusic_lyrics_winisland::cover::{
    decode_cover_base64, COVER_ERR_CHARACTER, COVER_ERR_DATA_URL, COVER_ERR_LENGTH,
    COVER_ERR_PADDING, COVER_ERR_PADDING_POSITION, COVER_ERR_TOO_LARGE, COVER_ERR_TOO_LONG,
    MAX_COVER_BASE64_CHARS, MAX_COVER_IMAGE_BYTES,
};
use echomusic_lyrics_winisland::font::font_data_base64;
use echomusic_lyrics_winisland::json::{JsonNumber, JsonValue};
use echomusic_lyrics_winisland::lyrics::{
    current_character_index, current_lyric_index, parse_music_data_payload, LyricCharacter,
    LyricLine,
};

fn s(v: &str) -> JsonValue {
    JsonValue::Str(v.to_string())
}

fn n(v: u64) -> JsonValue {
    JsonValue::Number(JsonNumber { as_u64: Some(v), rounded_u64: Some(v) })
}

fn obj(members: Vec<(&str, JsonValue)>) -> JsonValue {
    JsonValue::Object(members.into_iter().map(|(k, v)| (k.to_string(), v)).collect())
}

fn arr(items: Vec<JsonValue>) -> JsonValue {
    JsonValue::Array(items)
}

fn line(time_ms: u64, text: &str) -> JsonValue {
    obj(vec![("time_ms", n(time_ms)), ("text", s(text))])
}

#[test]
fn parse_music_data_payload_accepts_new_shape() {
    let payload = obj(vec![
        (
            "Metadata",
            obj(vec![
                ("id", s("123456")),
                ("title", s(" 歌曲名 ")),
                ("artist", s("歌手 A、歌手 B")),
                ("artists", arr(vec![s("歌手 A"), s(""), s(" 歌手 B ")])),
                ("cover_base64", s("AQIDBA==")),
                ("is_favorite", JsonValue::Bool(true)),
            ]),
        ),
        ("lyrics", arr(vec![line(15620, "第二句歌词"), line(3430, "第一句歌词")])),
    ]);

    let music_data = parse_music_data_payload(&payload).expect("应能解析 MusicData");
    assert_eq!(music_data.metadata.track_id.as_deref(), Some("123456"));
    assert_eq!(music_data.metadata.title, "歌曲名");
    assert_eq!(music_data.metadata.artist, "歌手 A、歌手 B");
    assert_eq!(music_data.metadata.artists, vec!["歌手 A", "歌手 B"]);
    assert!(music_data.metadata.is_favorite);
    assert_eq!(
        music_data.metadata.cover.as_deref().map(Vec::as_slice),
        Some(&[1, 2, 3, 4][..])
    );
    assert_eq!(music_data.lyrics[0].time_ms, 3430);
    assert_eq!(music_data.lyrics[0].characters, None);
    assert_eq!(music_data.lyrics[1].time_ms, 15620);
}

#[test]
fn parse_music_data_payload_with_characters() {
    let payload = obj(vec![
        ("Metadata", obj(vec![("title", s("歌曲名")), ("cover_base64", s(""))])),
        (
            "lyrics",
            arr(vec![
                obj(vec![
                    ("time_ms", n(3430)),
                    ("text", s("第一句歌词")),
                    (
                        "characters",
                        arr(vec![
                            obj(vec![("s", n(3430)), ("e", n(3550)), ("t", s("第"))]),
                            obj(vec![("s", n(3550)), ("e", n(3670)), ("t", s("一"))]),
                            obj(vec![("s", n(3670)), ("e", n(3790)), ("t", s("句"))]),
                        ]),
                    ),
                ]),
                line(15620, "第二句歌词"),
            ]),
        ),
    ]);

    let music_data = parse_music_data_payload(&payload).expect("应能解析带逐字的 MusicData");
    let line0 = &music_data.lyrics[0];
    let chars = line0.characters.as_ref().expect("应有逐字数据");
    assert_eq!(chars.len(), 3);
    assert_eq!(chars[0].s, 3430);
    assert_eq!(chars[0].e, 3550);
    assert_eq!(chars[0].t, "第");
    assert_eq!(chars[2].t, "句");
    assert!(music_data.lyrics[1].characters.is_none());
}

#[test]
fn parse_music_data_payload_accepts_empty_lyrics() {
    let payload = obj(vec![
        ("Metadata", obj(vec![("title", s("歌曲名")), ("cover_base64", s(""))])),
        ("lyrics", arr(vec![])),
    ]);

    let music_data = parse_music_data_payload(&payload).expect("空歌词 MusicData 应被接受");
    assert_eq!(music_data.metadata.title, "歌曲名");
    assert!(!music_data.metadata.is_favorite);
    assert!(music_data.lyrics.is_empty());
}

#[test]
fn parse_music_data_payload_rejects_track_field() {
    let payload = obj(vec![
        ("track", obj(vec![("title", s("旧字段"))])),
        ("lyrics", arr(vec![line(0, "歌词")])),
    ]);

    assert!(parse_music_data_payload(&payload).is_none());
}

#[test]
fn parse_music_data_payload_ignores_invalid_cover_but_keeps_lyrics() {
    let payload = obj(vec![
        ("Metadata", obj(vec![("title", s("歌曲名")), ("cover_base64", s("非法 base64"))])),
        ("lyrics", arr(vec![line(0, "歌词")])),
    ]);

    let music_data = parse_music_data_payload(&payload).expect("非法封面不应影响歌词");
    assert!(music_data.metadata.cover.is_none());
    assert_eq!(music_data.lyrics.len(), 1);
}

#[test]
fn decode_cover_base64_rejects_data_url_prefix() {
    assert!(decode_cover_base64("data:image/png;base64,AQID").is_err());
}

#[test]
fn decode_cover_base64_rejects_oversized_input() {
    let input = "A".repeat(MAX_COVER_IMAGE_BYTES.div_ceil(3) * 4 + 8);
    assert!(decode_cover_base64(&input).is_err());
}

#[test]
fn payload_lines_come_sorted_and_stable() {
    let payload = obj(vec![
        ("Metadata", obj(vec![("title", s("t"))])),
        (
            "lyrics",
            arr(vec![line(300, "c"), line(100, "a"), line(300, "d"), line(200, "b"), s("x")]),
        ),
    ]);
    let d = parse_music_data_payload(&payload).unwrap();
    let texts: Vec<&str> = d.lyrics.iter().map(|l| l.text.as_str()).collect();
    assert_eq!(texts, vec!["a", "b", "c", "d"]);
}

#[test]
fn payload_without_lyrics_array_or_blank_title_is_refused() {
    let no_lyrics = obj(vec![("Metadata", obj(vec![("title", s("t"))]))]);
    assert!(parse_music_data_payload(&no_lyrics).is_none());
    let blank_title = obj(vec![
        ("Metadata", obj(vec![("title", s("   "))])),
        ("lyrics", arr(vec![])),
    ]);
    assert!(parse_music_data_payload(&blank_title).is_none());
}

#[test]
fn payload_rounds_fractional_times_and_skips_negative_ones() {
    let frac = JsonValue::Number(JsonNumber { as_u64: None, rounded_u64: Some(1235) });
    let negative = JsonValue::Number(JsonNumber { as_u64: None, rounded_u64: None });
    let payload = obj(vec![
        ("Metadata", obj(vec![("title", s("t")), ("id", s("  "))])),
        (
            "lyrics",
            arr(vec![
                obj(vec![("time_ms", frac), ("text", s("  kept  "))]),
                obj(vec![("time_ms", negative), ("text", s("dropped"))]),
            ]),
        ),
    ]);
    let d = parse_music_data_payload(&payload).unwrap();
    assert_eq!(d.lyrics.len(), 1);
    assert_eq!(d.lyrics[0].time_ms, 1235);
    assert_eq!(d.lyrics[0].text, "kept");
    assert_eq!(d.metadata.track_id, None);
}

#[test]
fn cover_decodes_with_and_without_padding() {
    assert_eq!(decode_cover_base64("AQIDBA=="), Ok(Some(vec![1, 2, 3, 4])));
    assert_eq!(decode_cover_base64("AQID BA"), Ok(Some(vec![1, 2, 3, 4])));
    assert_eq!(decode_cover_base64("   "), Ok(None));
}

#[test]
fn cover_errors_each_have_their_input() {
    assert_eq!(decode_cover_base64("  data:AQID"), Err(COVER_ERR_DATA_URL));
    assert_eq!(decode_cover_base64("AQ,ID"), Err(COVER_ERR_DATA_URL));
    assert_eq!(decode_cover_base64("AB=C"), Err(COVER_ERR_PADDING_POSITION));
    assert_eq!(decode_cover_base64("AB="), Err(COVER_ERR_PADDING));
    assert_eq!(decode_cover_base64("A==="), Err(COVER_ERR_PADDING));
    assert_eq!(decode_cover_base64("AB*C"), Err(COVER_ERR_CHARACTER));
    assert_eq!(decode_cover_base64("ABCDE"), Err(COVER_ERR_LENGTH));
    assert_eq!(decode_cover_base64("AB=="), Err(COVER_ERR_CHARACTER));
    let too_long = "A".repeat(MAX_COVER_BASE64_CHARS + 1);
    assert_eq!(decode_cover_base64(&too_long), Err(COVER_ERR_TOO_LONG));
    let too_large = "A".repeat(MAX_COVER_BASE64_CHARS);
    assert_eq!(decode_cover_base64(&too_large), Err(COVER_ERR_TOO_LARGE));
}

#[test]
fn accepted_cover_never_exceeds_the_limit() {
    let largest = "A".repeat(MAX_COVER_IMAGE_BYTES / 3 * 4);
    let image = decode_cover_base64(&largest).unwrap().unwrap();
    assert_eq!(image.len(), MAX_COVER_IMAGE_BYTES / 3 * 3);
    assert!(image.len() <= MAX_COVER_IMAGE_BYTES);
}

fn plain(time_ms: u64, text: &str) -> LyricLine {
    LyricLine { time_ms, text: text.to_string(), characters: None }
}

#[test]
fn current_line_is_the_last_started_one() {
    let lines = vec![plain(100, "a"), plain(200, "b"), plain(200, "c"), plain(400, "d")];
    assert_eq!(current_lyric_index(&lines, 50), None);
    assert_eq!(current_lyric_index(&lines, 100), Some(0));
    assert_eq!(current_lyric_index(&lines, 250), Some(2));
    assert_eq!(current_lyric_index(&lines, 10_000), Some(3));
    assert_eq!(current_lyric_index(&[], 10), None);
}

#[test]
fn current_character_is_the_last_started_one() {
    let chars = vec![
        LyricCharacter { s: 10, e: 20, t: "a".to_string() },
        LyricCharacter { s: 20, e: 30, t: "b".to_string() },
    ];
    assert_eq!(current_character_index(&chars, 5), None);
    assert_eq!(current_character_index(&chars, 20), Some(1));
    assert_eq!(current_character_index(&chars, 15), Some(0));
}

#[test]
fn smallest_cover_is_one_byte() {
    assert_eq!(decode_cover_base64("AQ"), Ok(Some(vec![1])));
    assert_eq!(decode_cover_base64("AQ=="), Ok(Some(vec![1])));
    assert_eq!(decode_cover_base64(" \t\n "), Ok(None));
}

#[test]
fn font_data_is_padded_standard_base64() {
    assert_eq!(font_data_base64(b"hello"), "aGVsbG8=");
    assert_eq!(font_data_base64(b"hell"), "aGVsbA==");
    assert_eq!(font_data_base64(b"hel"), "aGVs");
    assert_eq!(font_data_base64(b""), "");
    assert_eq!(font_data_base64(&[0xfb, 0xff]), "+/8=");
}

#[test]
fn encoded_images_decode_back_with_white_space_and_without_padding() {
    for len in 1usize..8 {
        let image: Vec<u8> = (0..len).map(|i| (i * 37 + 11) as u8).collect();
        let encoded = font_data_base64(&image);
        let mut spaced = String::from(" \n");
        for (i, c) in encoded.chars().enumerate() {
            spaced.push(c);
            if i % 3 == 1 {
                spaced.push_str("\r\n\t");
            }
        }
        spaced.push(' ');
        assert_eq!(decode_cover_base64(&encoded), Ok(Some(image.clone())));
        assert_eq!(decode_cover_base64(&spaced), Ok(Some(image.clone())));
        let unpadded = encoded.trim_end_matches('=');
        assert_eq!(decode_cover_base64(unpadded), Ok(Some(image.clone())));
    }
}
