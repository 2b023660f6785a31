use kama_panels::details::{format_aspect_ratio, format_duration_millis, format_size, media_general_detail_rows};
use kama_panels::project::{MediaAsset, MediaKind, MediaTrack, MediaTrackKind};
use kama_panels::text::{append_zero_padded, decimal_text};

fn rows(list: &[(&str, &str)]) -> Vec<(String, String)> {
    list.iter().map(|(a, b)| (a.to_string(), b.to_string())).collect()
}

#[test]
fn aspect_ratio_is_reduced() {
    assert_eq!(format_aspect_ratio(1920, 1080), "16:9");
    assert_eq!(format_aspect_ratio(1080, 1920), "9:16");
    assert_eq!(format_aspect_ratio(4096, 2160), "256:135");
    assert_eq!(format_aspect_ratio(7, 7), "1:1");
    assert_eq!(format_aspect_ratio(0, 5), "0:1");
    assert_eq!(format_aspect_ratio(0, 0), "0:0");
    assert_eq!(format_aspect_ratio(u32::MAX, 1), "4294967295:1");
}

#[test]
fn duration_in_minutes_seconds_millis() {
    assert_eq!(format_duration_millis(0), "00:00.000");
    assert_eq!(format_duration_millis(61_005), "01:01.005");
    assert_eq!(format_duration_millis(59_999), "00:59.999");
    assert_eq!(format_duration_millis(6_000_000), "100:00.000");
}

#[test]
fn size_text_uses_times_sign() {
    assert_eq!(format_size(1280, 720), "1280 × 720");
    assert_eq!(format_size(0, 1), "0 × 1");
}

#[test]
fn decimal_and_padding() {
    assert_eq!(decimal_text(0), "0");
    assert_eq!(decimal_text(u64::MAX), "18446744073709551615");
    let mut s = String::from("x");
    append_zero_padded(&mut s, 7, 3);
    assert_eq!(s, "x007");
    let mut t = String::new();
    append_zero_padded(&mut t, 12345, 2);
    assert_eq!(t, "12345");
}

#[test]
fn general_rows_of_an_image() {
    let asset = MediaAsset {
        id: 1,
        name: "still".to_string(),
        path: "/pics/still.png".to_string(),
        kind: MediaKind::Image { width: 1920, height: 0 },
        has_audio: false,
        duration_millis: None,
        tracks: Vec::new(),
    };
    assert_eq!(
        media_general_detail_rows(&asset),
        rows(&[
            ("Path", "/pics/still.png"),
            ("Type", "Image"),
            ("Resolution", "1920 × 0"),
            ("Aspect ratio", "1920:1"),
        ])
    );
}

#[test]
fn general_rows_of_a_video_with_tracks() {
    let asset = MediaAsset {
        id: 2,
        name: "clip".to_string(),
        path: "/v/clip.mp4".to_string(),
        kind: MediaKind::Video,
        has_audio: true,
        duration_millis: Some(61_005),
        tracks: vec![
            MediaTrack { kind: MediaTrackKind::Video, codec: "h264".to_string() },
            MediaTrack { kind: MediaTrackKind::Audio, codec: "aac".to_string() },
            MediaTrack { kind: MediaTrackKind::Audio, codec: "aac".to_string() },
            MediaTrack { kind: MediaTrackKind::Audio, codec: "Opus".to_string() },
        ],
    };
    assert_eq!(
        media_general_detail_rows(&asset),
        rows(&[
            ("Path", "/v/clip.mp4"),
            ("Type", "Video"),
            ("Duration", "01:01.005"),
            ("Tracks", "4"),
            ("Video tracks", "1"),
            ("Audio tracks", "3"),
            ("Codecs", "Opus, aac, h264"),
        ])
    );
}

#[test]
fn general_rows_without_track_list() {
    let asset = MediaAsset {
        id: 3,
        name: "song".to_string(),
        path: "/a/song.wav".to_string(),
        kind: MediaKind::Audio,
        has_audio: false,
        duration_millis: None,
        tracks: Vec::new(),
    };
    assert_eq!(
        media_general_detail_rows(&asset),
        rows(&[("Path", "/a/song.wav"), ("Type", "Audio"), ("Tracks", "1"), ("Audio tracks", "1")])
    );
    let model = MediaAsset { kind: MediaKind::Model3d, ..asset.clone() };
    assert_eq!(media_general_detail_rows(&model), rows(&[("Path", "/a/song.wav"), ("Type", "3D model")]));
}

#[test]
fn empty_codecs_are_left_out() {
    let asset = MediaAsset {
        id: 4,
        name: "odd".to_string(),
        path: "p".to_string(),
        kind: MediaKind::Video,
        has_audio: false,
        duration_millis: None,
        tracks: vec![MediaTrack { kind: MediaTrackKind::Video, codec: String::new() }],
    };
    assert_eq!(
        media_general_detail_rows(&asset),
        rows(&[("Path", "p"), ("Type", "Video"), ("Tracks", "1"), ("Video tracks", "1")])
    );
}

use kama_panels::details::media_detail_tracks;
use kama_panels::media::MediaStream;

#[test]
fn detail_tracks_by_kind_and_stream() {
    let tracks = vec![
        MediaTrack { kind: MediaTrackKind::Audio, codec: "aac".to_string() },
        MediaTrack { kind: MediaTrackKind::Video, codec: "h264".to_string() },
        MediaTrack { kind: MediaTrackKind::Audio, codec: "opus".to_string() },
    ];
    assert_eq!(media_detail_tracks(&tracks, MediaTrackKind::Audio, MediaStream::All), vec![(0, 0), (1, 2)]);
    assert_eq!(media_detail_tracks(&tracks, MediaTrackKind::Audio, MediaStream::Audio(1)), vec![(1, 2)]);
    assert_eq!(media_detail_tracks(&tracks, MediaTrackKind::Audio, MediaStream::Video(0)), vec![(0, 0), (1, 2)]);
    assert_eq!(media_detail_tracks(&tracks, MediaTrackKind::Video, MediaStream::Video(3)), vec![]);
    assert!(media_detail_tracks(&[], MediaTrackKind::Video, MediaStream::All).is_empty());
}
