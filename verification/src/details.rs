//! The texts of the media details shown by the inspector.
use vstd::prelude::*;

use crate::media::{chars_of, kind_count, kind_label, media_kind_label, media_streams, streams_of, MediaStream};
use crate::order::{SortKey, sorted_order, key_before, text_less, lemma_sorted_unique, lemma_text_less_irreflexive, lemma_text_less_transitive, is_index_permutation};
use crate::project::{MediaAsset, MediaKind, MediaTrack, MediaTrackKind};
use crate::text::{append_decimal, append_zero_padded, decimal, decimal_text, push_char, zero_padded};

verus! {

/// The greatest common divisor, by Euclid's algorithm.
pub open spec fn gcd(a: nat, b: nat) -> nat
    decreases b,
{
    if b == 0 {
        a
    } else {
        gcd(b, a % b)
    }
}

/// `d` divides `n`.
pub open spec fn divides(d: nat, n: nat) -> bool {
    d > 0 && n % d == 0
}

/// The greatest common divisor divides both numbers.
pub proof fn lemma_gcd_divides(a: nat, b: nat)
    requires
        a > 0 || b > 0,
    ensures
        divides(gcd(a, b), a),
        divides(gcd(a, b), b),
    decreases b,
{
    if b == 0 {
        assert(a % a == 0) by (nonlinear_arith)
            requires
                a > 0,
        ;
        assert(0nat % a == 0);
    } else {
        lemma_gcd_divides(b, a % b);
        let g = gcd(b, a % b);
        // a = b * (a / b) + a % b, and g divides b and a % b.
        let q = a / b;
        let r = a % b;
        assert(a == b * q + r) by (nonlinear_arith)
            requires
                b > 0,
                q == a / b,
                r == a % b,
        ;
        assert(a % g == 0) by (nonlinear_arith)
            requires
                g > 0,
                b % g == 0,
                r % g == 0,
                a == b * q + r,
        {
            let bb = b / g;
            let rr = r / g;
            assert(b == g * bb);
            assert(r == g * rr);
            assert(a == g * (bb * q + rr));
        }
    }
}

/// The text of an aspect ratio: width and height divided by their greatest common divisor
/// (by 1 when both are 0), joined by a colon.
pub open spec fn aspect_ratio_text(width: nat, height: nat) -> Seq<char> {
    let g = gcd(width, height);
    let d = if g == 0 { 1 } else { g };
    decimal(width / d) + seq![':'] + decimal(height / d)
}

fn gcd_exec(width: u32, height: u32) -> (g: u32)
    ensures
        g == gcd(width as nat, height as nat),
{
    let mut a = width;
    let mut b = height;
    while b != 0
        invariant
            gcd(a as nat, b as nat) == gcd(width as nat, height as nat),
        decreases b,
    {
        let next = a % b;
        a = b;
        b = next;
    }
    a
}

/// The aspect ratio of a picture, reduced: 1920 × 1080 gives "16:9".
pub fn format_aspect_ratio(width: u32, height: u32) -> (text: String)
    ensures
        text@ == aspect_ratio_text(width as nat, height as nat),
{
    let g = gcd_exec(width, height);
    let divisor = if g == 0 { 1 } else { g };
    let mut text = String::new();
    append_decimal(&mut text, (width / divisor) as u64);
    push_char(&mut text, ':');
    append_decimal(&mut text, (height / divisor) as u64);
    assert(text@ =~= aspect_ratio_text(width as nat, height as nat));
    text
}

/// A duration given in milliseconds as minutes, seconds and milliseconds: "mm:ss.mmm".
pub open spec fn duration_text(total_millis: nat) -> Seq<char> {
    zero_padded(total_millis / 60_000, 2) + seq![':'] + zero_padded((total_millis % 60_000) / 1000, 2) + seq!['.']
        + zero_padded(total_millis % 1000, 3)
}

/// A duration given in milliseconds as "mm:ss.mmm".
pub fn format_duration_millis(total_millis: u64) -> (text: String)
    ensures
        text@ == duration_text(total_millis as nat),
{
    let minutes = total_millis / 60_000;
    let seconds = (total_millis % 60_000) / 1000;
    let millis = total_millis % 1000;
    let mut text = String::new();
    append_zero_padded(&mut text, minutes, 2);
    push_char(&mut text, ':');
    append_zero_padded(&mut text, seconds, 2);
    push_char(&mut text, '.');
    append_zero_padded(&mut text, millis, 3);
    assert(text@ =~= duration_text(total_millis as nat));
    text
}

/// A picture size as "width × height".
pub open spec fn size_text(width: nat, height: nat) -> Seq<char> {
    decimal(width) + " × "@ + decimal(height)
}

/// A picture size as "width × height".
pub fn format_size(width: u32, height: u32) -> (text: String)
    ensures
        text@ == size_text(width as nat, height as nat),
{
    let mut text = String::new();
    append_decimal(&mut text, width as u64);
    text.append(" × ");
    append_decimal(&mut text, height as u64);
    assert(text@ =~= size_text(width as nat, height as nat));
    text
}

/// The texts of the codecs of a media file's tracks, in track order.
pub open spec fn codec_texts(tracks: Seq<MediaTrack>) -> Seq<Seq<char>> {
    tracks.map_values(|t: MediaTrack| t.codec@)
}

/// Each text comes before the next one.
pub open spec fn strictly_sorted(texts: Seq<Seq<char>>) -> bool {
    forall|i: int, j: int| 0 <= i < j < texts.len() ==> text_less(#[trigger] texts[i], #[trigger] texts[j])
}

/// The distinct texts of `texts`, in ascending order.
pub open spec fn distinct_sorted(texts: Seq<Seq<char>>) -> Seq<Seq<char>> {
    choose|list: Seq<Seq<char>>| strictly_sorted(list) && list.to_set() == texts.to_set()
}

/// `parts` joined with `sep` between each two.
pub open spec fn joined(parts: Seq<Seq<char>>, sep: Seq<char>) -> Seq<char>
    decreases parts.len(),
{
    if parts.len() == 0 {
        Seq::empty()
    } else if parts.len() == 1 {
        parts[0]
    } else {
        joined(parts.drop_last(), sep) + sep + parts.last()
    }
}

fn chars_equal(a: &Vec<char>, b: &Vec<char>) -> (same: bool)
    ensures
        same == (a@ == b@),
{
    if a.len() != b.len() {
        return false;
    }
    let mut i: usize = 0;
    while i < a.len()
        invariant
            a.len() == b.len(),
            i <= a.len(),
            forall|k: int| 0 <= k < i ==> a@[k] == b@[k],
        decreases a.len() - i,
    {
        if a[i] != b[i] {
            return false;
        }
        i = i + 1;
    }
    assert(a@ =~= b@);
    true
}

proof fn lemma_distinct_sorted_unique(list: Seq<Seq<char>>, texts: Seq<Seq<char>>)
    requires
        strictly_sorted(list),
        list.to_set() == texts.to_set(),
    ensures
        distinct_sorted(texts) == list,
{
    let other = distinct_sorted(texts);
    assert(strictly_sorted(other) && other.to_set() == texts.to_set());
    let before = |a: Seq<char>, b: Seq<char>| text_less(a, b);
    assert forall|a: Seq<char>, b: Seq<char>| !(#[trigger] before(a, b) && before(b, a)) by {
        if text_less(a, b) && text_less(b, a) {
            lemma_text_less_transitive(a, b, a);
            lemma_text_less_irreflexive(a);
        }
    }
    lemma_sorted_unique(list, other, before);
}

/// The distinct codecs of the tracks, in ascending order.
fn distinct_codecs(tracks: &Vec<MediaTrack>) -> (list: Vec<Vec<char>>)
    ensures
        list@.map_values(|v: Vec<char>| v@) == distinct_sorted(codec_texts(tracks@)),
{
    let mut keys: Vec<SortKey> = Vec::new();
    let mut i: usize = 0;
    while i < tracks.len()
        invariant
            i <= tracks.len(),
            keys.len() == i,
            forall|k: int| 0 <= k < i ==> (#[trigger] keys@[k]).rank == 0 && keys@[k].text@ == tracks@[k].codec@
                && keys@[k].minor == 0,
        decreases tracks.len() - i,
    {
        keys.push(SortKey { rank: 0, text: chars_of(tracks[i].codec.as_str()), minor: 0 });
        i = i + 1;
    }
    let order = sorted_order(&keys);
    let ghost texts = codec_texts(tracks@);
    let mut list: Vec<Vec<char>> = Vec::new();
    let mut k: usize = 0;
    while k < order.len()
        invariant
            k <= order.len(),
            order.len() == tracks.len(),
            keys.len() == tracks.len(),
            is_index_permutation(order@, keys.len() as nat),
            forall|a: int, b: int| 0 <= a < b < order.len() ==> key_before(keys@, #[trigger] order@[a] as int, #[trigger] order@[b] as int),
            forall|q: int| 0 <= q < keys.len() ==> (#[trigger] keys@[q]).rank == 0 && keys@[q].text@ == tracks@[q].codec@
                && keys@[q].minor == 0,
            texts == codec_texts(tracks@),
            strictly_sorted(list@.map_values(|v: Vec<char>| v@)),
            list@.map_values(|v: Vec<char>| v@).to_set() == Set::new(|t: Seq<char>| exists|q: int| 0 <= q < k && #[trigger] texts[order@[q] as int] == t),
            list.len() <= k,
            k > 0 ==> list.len() > 0 && list@.last()@ == texts[order@[k - 1] as int],
        decreases order.len() - k,
    {
        let text = chars_of(tracks[order[k]].codec.as_str());
        let ghost views = list@.map_values(|v: Vec<char>| v@);
        let ghost t = text@;
        assert(t == texts[order@[k as int] as int]);
        let fresh = if list.len() == 0 {
            true
        } else {
            !chars_equal(&list[list.len() - 1], &text)
        };
        if fresh {
            proof {
                assert forall|e: int| 0 <= e < views.len() implies text_less(#[trigger] views[e], t) by {
                    assert(k > 0);
                    assert(key_before(keys@, order@[k - 1] as int, order@[k as int] as int));
                    let last = views[views.len() - 1];
                    assert(last == texts[order@[k - 1] as int]);
                    assert(text_less(last, t));
                    if e < views.len() - 1 {
                        assert(text_less(views[e], last));
                        lemma_text_less_transitive(views[e], last, t);
                    }
                }
            }
            list.push(text);
            proof {
                let nv = list@.map_values(|v: Vec<char>| v@);
                assert(nv =~= views.push(t));
                assert forall|i2: int, j2: int| 0 <= i2 < j2 < nv.len() implies text_less(#[trigger] nv[i2], #[trigger] nv[j2]) by {
                    assert(nv[i2] == views[i2]);
                    if j2 == nv.len() - 1 {
                        assert(nv[j2] == t);
                        assert(text_less(views[i2], t));
                    } else {
                        assert(nv[j2] == views[j2]);
                    }
                }
            }
        } else {
            proof {
                assert(list@.last()@ == t);
            }
        }
        proof {
            let nv = list@.map_values(|v: Vec<char>| v@);
            let want = Set::new(|u: Seq<char>| exists|q: int| 0 <= q < k + 1 && #[trigger] texts[order@[q] as int] == u);
            let had = Set::new(|u: Seq<char>| exists|q: int| 0 <= q < k && #[trigger] texts[order@[q] as int] == u);
            assert forall|u: Seq<char>| want.contains(u) <==> had.contains(u) || u == t by {
                if want.contains(u) {
                    let q = choose|q: int| 0 <= q < k + 1 && #[trigger] texts[order@[q] as int] == u;
                    if q < k {
                        assert(had.contains(u));
                    }
                }
                if had.contains(u) {
                    let q = choose|q: int| 0 <= q < k && #[trigger] texts[order@[q] as int] == u;
                    assert(0 <= q < k + 1 && texts[order@[q] as int] == u);
                }
                if u == t {
                    assert(0 <= k < k + 1 && texts[order@[k as int] as int] == u);
                }
            }
            if fresh {
                assert(nv =~= views.push(t));
                assert forall|u: Seq<char>| nv.to_set().contains(u) <==> views.to_set().contains(u) || u == t by {
                    if nv.to_set().contains(u) {
                        let q = choose|q: int| 0 <= q < nv.len() && nv[q] == u;
                        if q < views.len() {
                            assert(views[q] == u);
                        }
                    }
                    if views.to_set().contains(u) {
                        let q = choose|q: int| 0 <= q < views.len() && views[q] == u;
                        assert(nv[q] == u);
                    }
                    if u == t {
                        assert(nv[views.len() as int] == u);
                    }
                }
            } else {
                assert(nv == views);
                assert(views.to_set().contains(t)) by {
                    assert(views[views.len() - 1] == t);
                }
            }
            assert(nv.to_set() =~= want);
        }
        k = k + 1;
    }
    proof {
        let nv = list@.map_values(|v: Vec<char>| v@);
        let got = Set::new(|u: Seq<char>| exists|q: int| 0 <= q < order.len() && #[trigger] texts[order@[q] as int] == u);
        assert forall|u: Seq<char>| got.contains(u) <==> texts.to_set().contains(u) by {
            if got.contains(u) {
                let q = choose|q: int| 0 <= q < order.len() && #[trigger] texts[order@[q] as int] == u;
                assert(texts.contains(u));
            }
            if texts.to_set().contains(u) {
                let w = choose|w: int| 0 <= w < texts.len() && texts[w] == u;
                assert(order@.contains(w as usize));
                let q = choose|q: int| 0 <= q < order.len() && order@[q] == w as usize;
                assert(texts[order@[q] as int] == u);
            }
        }
        assert(nv.to_set() =~= texts.to_set());
        lemma_distinct_sorted_unique(nv, texts);
    }
    list
}

/// Appends `parts` joined with ", ".
fn append_joined(text: &mut String, parts: &Vec<Vec<char>>)
    ensures
        final(text)@ == old(text)@ + joined(parts@.map_values(|v: Vec<char>| v@), ", "@),
{
    let ghost views = parts@.map_values(|v: Vec<char>| v@);
    let mut i: usize = 0;
    proof {
        assert(views.take(0) =~= Seq::<Seq<char>>::empty());
        assert(text@ =~= old(text)@ + joined(views.take(0), ", "@));
    }
    while i < parts.len()
        invariant
            i <= parts.len(),
            views == parts@.map_values(|v: Vec<char>| v@),
            text@ == old(text)@ + joined(views.take(i as int), ", "@),
        decreases parts.len() - i,
    {
        let ghost before = text@;
        if i > 0 {
            text.append(", ");
        }
        let part = &parts[i];
        let mut j: usize = 0;
        let ghost mid = text@;
        while j < part.len()
            invariant
                j <= part.len(),
                text@ == mid + part@.take(j as int),
            decreases part.len() - j,
        {
            push_char(text, part[j]);
            assert(part@.take(j + 1) =~= part@.take(j as int).push(part@[j as int]));
            j = j + 1;
        }
        proof {
            assert(part@.take(part.len() as int) =~= part@);
            let next = views.take(i + 1);
            assert(next.drop_last() =~= views.take(i as int));
            assert(next.last() == part@);
            if i == 0 {
                assert(joined(next, ", "@) == part@);
                assert(views.take(0) =~= Seq::<Seq<char>>::empty());
                assert(text@ =~= old(text)@ + joined(next, ", "@));
            } else {
                assert(text@ =~= old(text)@ + joined(next, ", "@));
            }
        }
        i = i + 1;
    }
    assert(views.take(parts.len() as int) =~= views);
}

/// How many of `streams` are video streams.
pub open spec fn video_count(streams: Seq<MediaStream>) -> nat
    decreases streams.len(),
{
    if streams.len() == 0 {
        0
    } else {
        video_count(streams.drop_last()) + if streams.last() is Video { 1nat } else { 0nat }
    }
}

/// How many of `streams` are audio streams.
pub open spec fn audio_count(streams: Seq<MediaStream>) -> nat
    decreases streams.len(),
{
    if streams.len() == 0 {
        0
    } else {
        audio_count(streams.drop_last()) + if streams.last() is Audio { 1nat } else { 0nat }
    }
}

/// The rows that name a media file's path and kind.
pub open spec fn identity_rows(asset: MediaAsset) -> Seq<(Seq<char>, Seq<char>)> {
    seq![("Path"@, asset.path@), ("Type"@, kind_label(asset.kind))]
}

/// The size and aspect ratio rows of an image (none for other kinds).
pub open spec fn image_rows(asset: MediaAsset) -> Seq<(Seq<char>, Seq<char>)> {
    match asset.kind {
        MediaKind::Image { width, height } => seq![
            ("Resolution"@, size_text(width as nat, height as nat)),
            ("Aspect ratio"@, aspect_ratio_text(if width == 0 { 1 } else { width as nat }, if height == 0 { 1 } else { height as nat })),
        ],
        _ => Seq::empty(),
    }
}

/// The duration row, where the duration is known.
pub open spec fn duration_rows(asset: MediaAsset) -> Seq<(Seq<char>, Seq<char>)> {
    match asset.duration_millis {
        Some(ms) => seq![("Duration"@, duration_text(ms as nat))],
        None => Seq::empty(),
    }
}

/// The track rows: the number of streams, of video and of audio streams (each only where
/// non-zero), and the distinct codecs joined with ", " (only where there are tracks and the
/// joined text is not empty). None at all where the file has no streams.
pub open spec fn track_rows(asset: MediaAsset) -> Seq<(Seq<char>, Seq<char>)> {
    let streams = streams_of(asset);
    let videos = video_count(streams);
    let audios = audio_count(streams);
    let codecs = joined(distinct_sorted(codec_texts(asset.tracks@)), ", "@);
    if streams.len() == 0 {
        Seq::empty()
    } else {
        seq![("Tracks"@, decimal(streams.len()))]
            + (if videos > 0 { seq![("Video tracks"@, decimal(videos))] } else { Seq::empty() })
            + (if audios > 0 { seq![("Audio tracks"@, decimal(audios))] } else { Seq::empty() })
            + (if asset.tracks.len() > 0 && codecs.len() > 0 { seq![("Codecs"@, codecs)] } else { Seq::empty() })
    }
}

/// The general detail rows of a media file, in order: path and kind, image size and aspect
/// ratio, duration, track counts and codecs.
pub open spec fn general_rows(asset: MediaAsset) -> Seq<(Seq<char>, Seq<char>)> {
    identity_rows(asset) + image_rows(asset) + duration_rows(asset) + track_rows(asset)
}

/// The texts of label and value rows.
pub open spec fn row_texts(rows: Seq<(String, String)>) -> Seq<(Seq<char>, Seq<char>)> {
    rows.map_values(|r: (String, String)| (r.0@, r.1@))
}

fn push_row(rows: &mut Vec<(String, String)>, label: &str, value: String)
    ensures
        row_texts(final(rows)@) == row_texts(old(rows)@).push((label@, value@)),
{
    rows.push((String::from_str(label), value));
    assert(row_texts(rows@) =~= row_texts(old(rows)@).push((label@, value@)));
}

fn append_rows(rows: &mut Vec<(String, String)>, more: Vec<(String, String)>)
    ensures
        row_texts(final(rows)@) == row_texts(old(rows)@) + row_texts(more@),
{
    let ghost added = more@;
    let mut more = more;
    rows.append(&mut more);
    assert(row_texts(rows@) =~= row_texts(old(rows)@) + row_texts(added));
}

fn track_detail_rows(asset: &MediaAsset) -> (rows: Vec<(String, String)>)
    ensures
        row_texts(rows@) == track_rows(*asset),
{
    let mut rows: Vec<(String, String)> = Vec::new();
    let streams = media_streams(asset);
    if streams.len() == 0 {
        assert(row_texts(rows@) =~= track_rows(*asset));
        return rows;
    }
    let mut videos: u64 = 0;
    let mut audios: u64 = 0;
    let mut i: usize = 0;
    while i < streams.len()
        invariant
            i <= streams.len(),
            videos == video_count(streams@.take(i as int)),
            audios == audio_count(streams@.take(i as int)),
            videos <= i,
            audios <= i,
        decreases streams.len() - i,
    {
        assert(streams@.take(i + 1).drop_last() =~= streams@.take(i as int));
        match streams[i] {
            MediaStream::Video(_) => {
                videos = videos + 1;
            },
            MediaStream::Audio(_) => {
                audios = audios + 1;
            },
            MediaStream::All => {},
        }
        i = i + 1;
    }
    assert(streams@.take(streams.len() as int) =~= streams@);
    push_row(&mut rows, "Tracks", decimal_text(streams.len() as u64));
    if videos > 0 {
        push_row(&mut rows, "Video tracks", decimal_text(videos));
    }
    if audios > 0 {
        push_row(&mut rows, "Audio tracks", decimal_text(audios));
    }
    if asset.tracks.len() > 0 {
        let list = distinct_codecs(&asset.tracks);
        let mut codecs = String::new();
        append_joined(&mut codecs, &list);
        assert(codecs@ =~= joined(distinct_sorted(codec_texts(asset.tracks@)), ", "@));
        if codecs.as_str().unicode_len() > 0 {
            push_row(&mut rows, "Codecs", codecs);
        }
    }
    assert(row_texts(rows@) =~= track_rows(*asset));
    rows
}

/// The general detail rows of a media file.
pub fn media_general_detail_rows(asset: &MediaAsset) -> (rows: Vec<(String, String)>)
    ensures
        row_texts(rows@) == general_rows(*asset),
{
    let mut rows: Vec<(String, String)> = Vec::new();
    push_row(&mut rows, "Path", asset.path.clone());
    push_row(&mut rows, "Type", String::from_str(media_kind_label(asset.kind)));
    assert(row_texts(rows@) =~= identity_rows(*asset));
    if let MediaKind::Image { width, height } = asset.kind {
        push_row(&mut rows, "Resolution", format_size(width, height));
        let w = if width == 0 { 1 } else { width };
        let h = if height == 0 { 1 } else { height };
        push_row(&mut rows, "Aspect ratio", format_aspect_ratio(w, h));
    }
    assert(row_texts(rows@) =~= identity_rows(*asset) + image_rows(*asset));
    if let Some(ms) = asset.duration_millis {
        push_row(&mut rows, "Duration", format_duration_millis(ms));
    }
    assert(row_texts(rows@) =~= identity_rows(*asset) + image_rows(*asset) + duration_rows(*asset));
    let tracks = track_detail_rows(asset);
    append_rows(&mut rows, tracks);
    rows
}

/// The stream number that `stream` picks among the tracks of `kind`, if it picks one.
pub open spec fn selected_ordinal(kind: MediaTrackKind, stream: MediaStream) -> Option<usize> {
    match (kind, stream) {
        (MediaTrackKind::Video, MediaStream::Video(i)) => Some(i),
        (MediaTrackKind::Audio, MediaStream::Audio(i)) => Some(i),
        _ => None,
    }
}

/// The tracks of `kind` that the detail rows describe, in track order, each with its number
/// among the tracks of that kind and its place among all tracks: every such track, or only the
/// one that `stream` picks.
pub open spec fn detail_tracks(tracks: Seq<MediaTrack>, kind: MediaTrackKind, stream: MediaStream) -> Seq<(usize, usize)>
    decreases tracks.len(),
{
    if tracks.len() == 0 {
        Seq::empty()
    } else {
        let k = tracks.len() - 1;
        let ordinal = kind_count(tracks, k, kind) as usize;
        detail_tracks(tracks.drop_last(), kind, stream) + if tracks[k].kind == kind && (selected_ordinal(kind, stream) is None
            || selected_ordinal(kind, stream) == Some(ordinal)) {
            seq![(ordinal, k as usize)]
        } else {
            Seq::empty()
        }
    }
}

proof fn lemma_kind_count_prefix(tracks: Seq<MediaTrack>, n: int, k: int, kind: MediaTrackKind)
    requires
        0 <= k <= n <= tracks.len(),
    ensures
        kind_count(tracks.take(n), k, kind) == kind_count(tracks, k, kind),
    decreases k,
{
    if k > 0 {
        lemma_kind_count_prefix(tracks, n, k - 1, kind);
    }
}

proof fn lemma_kind_count_bound(tracks: Seq<MediaTrack>, k: int, kind: MediaTrackKind)
    requires
        0 <= k,
    ensures
        kind_count(tracks, k, kind) <= k,
    decreases k,
{
    if k > 0 {
        lemma_kind_count_bound(tracks, k - 1, kind);
    }
}

/// The tracks of `kind` that the video or audio detail rows describe, each with its number
/// among the tracks of that kind and its place among all tracks.
pub fn media_detail_tracks(tracks: &[MediaTrack], kind: MediaTrackKind, selected_stream: MediaStream) -> (picked: Vec<(usize, usize)>)
    ensures
        picked@ == detail_tracks(tracks@, kind, selected_stream),
{
    let selected: Option<usize> = match (kind, selected_stream) {
        (MediaTrackKind::Video, MediaStream::Video(i)) => Some(i),
        (MediaTrackKind::Audio, MediaStream::Audio(i)) => Some(i),
        _ => None,
    };
    let mut picked: Vec<(usize, usize)> = Vec::new();
    let mut count: usize = 0;
    let mut i: usize = 0;
    assert(tracks@.take(0) =~= Seq::<MediaTrack>::empty());
    while i < tracks.len()
        invariant
            i <= tracks.len(),
            selected == selected_ordinal(kind, selected_stream),
            count == kind_count(tracks@, i as int, kind),
            count <= i,
            picked@ == detail_tracks(tracks@.take(i as int), kind, selected_stream),
        decreases tracks.len() - i,
    {
        let ghost t = tracks@.take(i + 1);
        proof {
            assert(t.drop_last() =~= tracks@.take(i as int));
            assert(t[i as int] == tracks@[i as int]);
            lemma_kind_count_prefix(tracks@, i + 1, i as int, kind);
        }
        if tracks[i].kind == kind {
            let wanted = match selected {
                Some(n) => n == count,
                None => true,
            };
            if wanted {
                picked.push((count, i));
            }
            count = count + 1;
        }
        i = i + 1;
    }
    assert(tracks@.take(tracks.len() as int) =~= tracks@);
    picked
}

} // verus!
