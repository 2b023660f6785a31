//! Media kinds, the streams of media files and the order of the media library.
use vstd::prelude::*;

use crate::menu::AppIcon;
use crate::order::{SortKey, sorted_order, key_before, text_less, is_index_permutation, lemma_sorted_unique, lemma_text_less_irreflexive, lemma_text_less_transitive};
use crate::project::{MediaAsset, MediaKind, MediaTrack, MediaTrackKind};

verus! {

/// A part of a media file or composition: all of it, or one of its video or audio streams.
#[derive(Clone, Copy, Debug, PartialEq, Eq, Hash, Structural)]
pub enum MediaStream {
    All,
    Video(usize),
    Audio(usize),
}

/// Something dragged out of the media library.
#[derive(Clone, Copy, Debug, PartialEq, Eq, Hash, Structural)]
pub enum MediaDragItem {
    Media { media: u64, stream: MediaStream },
    Composition { composition: u64, stream: MediaStream },
}

/// What the media library asks the application to do.
#[derive(Clone, Debug)]
pub enum MediaAction {
    Nothing,
    NewComposition,
    DuplicateComposition(u64),
    RenameComposition(u64),
    DeleteComposition(u64),
    BeginDrag { items: Vec<MediaDragItem>, open_on_click: Option<u64> },
    Import,
    ImportClipboard,
    InsertSelected { items: Vec<MediaDragItem> },
    ReplaceSelectedMedia { media: u64 },
    RemoveSelected { media: Vec<u64> },
}

/// The group a media kind is listed in: images, videos, audio, 3D models, generators, others.
pub open spec fn kind_rank(kind: MediaKind) -> u8 {
    match kind {
        MediaKind::Image { .. } => 0,
        MediaKind::Video => 1,
        MediaKind::Audio => 2,
        MediaKind::Model3d => 3,
        MediaKind::WasmPlugin => 4,
        MediaKind::Unknown => 5,
    }
}

/// The group a media kind is listed in.
pub fn media_kind_sort_key(kind: MediaKind) -> (key: u8)
    ensures
        key == kind_rank(kind),
{
    match kind {
        MediaKind::Image { .. } => 0,
        MediaKind::Video => 1,
        MediaKind::Audio => 2,
        MediaKind::Model3d => 3,
        MediaKind::WasmPlugin => 4,
        MediaKind::Unknown => 5,
    }
}

/// The name of a media kind.
pub open spec fn kind_label(kind: MediaKind) -> Seq<char> {
    match kind {
        MediaKind::Image { .. } => "Image"@,
        MediaKind::Video => "Video"@,
        MediaKind::Audio => "Audio"@,
        MediaKind::Model3d => "3D model"@,
        MediaKind::WasmPlugin => "CPU/WASM generator"@,
        MediaKind::Unknown => "Unknown media"@,
    }
}

/// The name of a media kind.
pub fn media_kind_label(kind: MediaKind) -> (label: &'static str)
    ensures
        label@ == kind_label(kind),
{
    match kind {
        MediaKind::Image { .. } => "Image",
        MediaKind::Video => "Video",
        MediaKind::Audio => "Audio",
        MediaKind::Model3d => "3D model",
        MediaKind::WasmPlugin => "CPU/WASM generator",
        MediaKind::Unknown => "Unknown media",
    }
}

/// The icon of a media kind.
pub open spec fn kind_icon(kind: MediaKind) -> AppIcon {
    match kind {
        MediaKind::Image { .. } => AppIcon::Image,
        MediaKind::Video => AppIcon::Video,
        MediaKind::Audio => AppIcon::Audio,
        MediaKind::Model3d => AppIcon::Node,
        MediaKind::WasmPlugin => AppIcon::Node,
        MediaKind::Unknown => AppIcon::Media,
    }
}

/// The icon of a media kind.
pub fn media_kind_icon(kind: MediaKind) -> (icon: AppIcon)
    ensures
        icon == kind_icon(kind),
{
    match kind {
        MediaKind::Image { .. } => AppIcon::Image,
        MediaKind::Video => AppIcon::Video,
        MediaKind::Audio => AppIcon::Audio,
        MediaKind::Model3d => AppIcon::Node,
        MediaKind::WasmPlugin => AppIcon::Node,
        MediaKind::Unknown => AppIcon::Media,
    }
}

/// How many of the first `k` tracks are of the given kind.
pub open spec fn kind_count(tracks: Seq<MediaTrack>, k: int, kind: MediaTrackKind) -> nat
    decreases k,
{
    if k <= 0 {
        0
    } else {
        kind_count(tracks, k - 1, kind) + if tracks[k - 1].kind == kind { 1nat } else { 0nat }
    }
}

/// The stream of track `k`: its kind, numbered among the tracks of that kind.
pub open spec fn track_stream(tracks: Seq<MediaTrack>, k: int) -> MediaStream {
    match tracks[k].kind {
        MediaTrackKind::Video => MediaStream::Video(kind_count(tracks, k, MediaTrackKind::Video) as usize),
        MediaTrackKind::Audio => MediaStream::Audio(kind_count(tracks, k, MediaTrackKind::Audio) as usize),
    }
}

/// The streams of a media file: one per track when its tracks are known, else the video
/// stream of a video (with its sound when it has some) or the sound of an audio file.
pub open spec fn streams_of(asset: MediaAsset) -> Seq<MediaStream> {
    if asset.tracks.len() > 0 {
        Seq::new(asset.tracks.len() as nat, |k: int| track_stream(asset.tracks@, k))
    } else {
        match asset.kind {
            MediaKind::Video => if asset.has_audio {
                seq![MediaStream::Video(0), MediaStream::Audio(0)]
            } else {
                seq![MediaStream::Video(0)]
            },
            MediaKind::Audio => seq![MediaStream::Audio(0)],
            _ => Seq::empty(),
        }
    }
}

proof fn lemma_kind_count_le(tracks: Seq<MediaTrack>, k: int, kind: MediaTrackKind)
    ensures
        kind_count(tracks, k, kind) <= if k < 0 { 0 } else { k as nat },
    decreases k,
{
    if k > 0 {
        lemma_kind_count_le(tracks, k - 1, kind);
    }
}

/// The streams of a media file.
pub fn media_streams(asset: &MediaAsset) -> (streams: Vec<MediaStream>)
    ensures
        streams@ == streams_of(*asset),
{
    if asset.tracks.len() > 0 {
        let mut streams: Vec<MediaStream> = Vec::new();
        let mut video: usize = 0;
        let mut audio: usize = 0;
        let mut i: usize = 0;
        while i < asset.tracks.len()
            invariant
                i <= asset.tracks.len(),
                video == kind_count(asset.tracks@, i as int, MediaTrackKind::Video),
                audio == kind_count(asset.tracks@, i as int, MediaTrackKind::Audio),
                streams.len() == i,
                forall|k: int| 0 <= k < i ==> #[trigger] streams@[k] == track_stream(asset.tracks@, k),
            decreases asset.tracks.len() - i,
        {
            proof {
                lemma_kind_count_le(asset.tracks@, i as int, MediaTrackKind::Video);
                lemma_kind_count_le(asset.tracks@, i as int, MediaTrackKind::Audio);
            }
            match asset.tracks[i].kind {
                MediaTrackKind::Video => {
                    streams.push(MediaStream::Video(video));
                    video = video + 1;
                },
                MediaTrackKind::Audio => {
                    streams.push(MediaStream::Audio(audio));
                    audio = audio + 1;
                },
            }
            i = i + 1;
        }
        assert(streams@ =~= streams_of(*asset));
        return streams;
    }
    let mut streams: Vec<MediaStream> = Vec::new();
    match asset.kind {
        MediaKind::Video => {
            streams.push(MediaStream::Video(0));
            if asset.has_audio {
                streams.push(MediaStream::Audio(0));
            }
        },
        MediaKind::Audio => {
            streams.push(MediaStream::Audio(0));
        },
        _ => {},
    }
    assert(streams@ =~= streams_of(*asset));
    streams
}

/// The lower-case form of a text, as `str::to_lowercase` gives it.
pub uninterp spec fn lowercase(s: Seq<char>) -> Seq<char>;

/// `str::to_lowercase`: the text with every letter in lower case, by Unicode's mapping.
#[verifier::external_body]
pub(crate) fn to_lowercase(s: &str) -> (lower: String)
    ensures
        lower@ == lowercase(s@),
{
    s.to_lowercase()
}

/// The characters of a text.
pub fn chars_of(s: &str) -> (chars: Vec<char>)
    ensures
        chars@ == s@,
{
    let n = s.unicode_len();
    let mut chars: Vec<char> = Vec::new();
    let mut i: usize = 0;
    while i < n
        invariant
            n == s@.len(),
            i <= n,
            chars@ == s@.take(i as int),
        decreases n - i,
    {
        chars.push(s.get_char(i));
        assert(s@.take(i + 1) =~= s@.take(i as int).push(s@[i as int]));
        i = i + 1;
    }
    assert(s@.take(n as int) =~= s@);
    chars
}

/// Media file `i` is listed before `j`: by kind group, then by lower-case name, then by
/// place in the project.
pub open spec fn media_listed_before(media: Seq<MediaAsset>, i: int, j: int) -> bool {
    let a = kind_rank(media[i].kind);
    let b = kind_rank(media[j].kind);
    let x = lowercase(media[i].name@);
    let y = lowercase(media[j].name@);
    ||| a < b
    ||| a == b && text_less(x, y)
    ||| a == b && x == y && i < j
}

/// The indices of `media` in listing order.
pub open spec fn media_order(media: Seq<MediaAsset>) -> Seq<usize> {
    choose|order: Seq<usize>| is_index_permutation(order, media.len() as nat)
        && forall|a: int, b: int|
            0 <= a < b < order.len() ==> media_listed_before(media, #[trigger] order[a] as int, #[trigger] order[b] as int)
}

proof fn lemma_media_listed_asymmetric(media: Seq<MediaAsset>, i: int, j: int)
    ensures
        !(media_listed_before(media, i, j) && media_listed_before(media, j, i)),
{
    let x = lowercase(media[i].name@);
    let y = lowercase(media[j].name@);
    if text_less(x, y) && text_less(y, x) {
        lemma_text_less_transitive(x, y, x);
        lemma_text_less_irreflexive(x);
    }
}

/// There is one listing order, and `order` is it.
proof fn lemma_media_order_unique(media: Seq<MediaAsset>, order: Seq<usize>)
    requires
        media.len() <= usize::MAX,
        is_index_permutation(order, media.len() as nat),
        forall|a: int, b: int|
            0 <= a < b < order.len() ==> media_listed_before(media, #[trigger] order[a] as int, #[trigger] order[b] as int),
    ensures
        media_order(media) == order,
{
    let other = media_order(media);
    assert(is_index_permutation(other, media.len() as nat)
        && forall|a: int, b: int|
            0 <= a < b < other.len() ==> media_listed_before(media, #[trigger] other[a] as int, #[trigger] other[b] as int));
    let before = |a: usize, b: usize| media_listed_before(media, a as int, b as int);
    assert forall|a: usize, b: usize| !(#[trigger] before(a, b) && before(b, a)) by {
        lemma_media_listed_asymmetric(media, a as int, b as int);
    }
    assert forall|v: usize| order.to_set().contains(v) <==> other.to_set().contains(v) by {
        if order.to_set().contains(v) {
            let q = choose|q: int| 0 <= q < order.len() && order[q] == v;
            assert(v < media.len());
            assert(other.contains(v as int as usize));
        }
        if other.to_set().contains(v) {
            let q = choose|q: int| 0 <= q < other.len() && other[q] == v;
            assert(v < media.len());
            assert(order.contains(v as int as usize));
        }
    }
    assert(order.to_set() =~= other.to_set());
    lemma_sorted_unique(order, other, before);
}

/// The order in which the media library lists the project's media files.
pub fn media_display_order(media: &[MediaAsset]) -> (order: Vec<usize>)
    ensures
        is_index_permutation(order@, media.len() as nat),
        forall|a: int, b: int|
            0 <= a < b < order.len() ==> media_listed_before(media@, #[trigger] order@[a] as int, #[trigger] order@[b] as int),
        order@ == media_order(media@),
{
    let mut keys: Vec<SortKey> = Vec::new();
    let mut i: usize = 0;
    while i < media.len()
        invariant
            i <= media.len(),
            keys.len() == i,
            forall|k: int| 0 <= k < i ==> (#[trigger] keys@[k]).rank == kind_rank(media@[k].kind)
                && keys@[k].text@ == lowercase(media@[k].name@) && keys@[k].minor == 0,
        decreases media.len() - i,
    {
        let lower = to_lowercase(media[i].name.as_str());
        let text = chars_of(lower.as_str());
        let rank = media_kind_sort_key(media[i].kind);
        keys.push(SortKey { rank: rank as u64, text, minor: 0 });
        i = i + 1;
    }
    let order = sorted_order(&keys);
    proof {
        assert forall|a: int, b: int|
            0 <= a < b < order.len() implies media_listed_before(media@, #[trigger] order@[a] as int, #[trigger] order@[b] as int) by {
            assert(key_before(keys@, order@[a] as int, order@[b] as int));
        }
        lemma_media_order_unique(media@, order@);
    }
    order
}

/// An entry of the media library's context menu.
#[derive(Clone, Copy, Debug, PartialEq, Eq, Structural)]
pub enum MediaContextItem {
    NewComposition,
    DuplicateComposition,
    RenameComposition,
    DeleteComposition,
    Import,
    ImportClipboard,
    Insert,
    ReplaceSelectedMedia,
    Remove,
}

/// What the media library's context menu was opened on.
#[derive(Clone, Copy, Debug, PartialEq, Eq, Structural)]
pub enum MediaContextTarget {
    Empty,
    Composition,
    Media,
    Stream,
}

/// The entries of the media library's context menu, with their text.
pub open spec fn context_items_for(target: MediaContextTarget) -> Seq<(MediaContextItem, &'static str)> {
    match target {
        MediaContextTarget::Empty => seq![
            (MediaContextItem::NewComposition, "New Composition…"),
            (MediaContextItem::Import, "Import media…"),
            (MediaContextItem::ImportClipboard, "Import from clipboard"),
        ],
        MediaContextTarget::Composition => seq![
            (MediaContextItem::DuplicateComposition, "Duplicate Composition"),
            (MediaContextItem::RenameComposition, "Rename Composition…"),
            (MediaContextItem::DeleteComposition, "Delete Composition"),
            (MediaContextItem::Insert, "Insert selected at playhead"),
        ],
        MediaContextTarget::Media => seq![
            (MediaContextItem::Insert, "Insert selected at playhead"),
            (MediaContextItem::ReplaceSelectedMedia, "Replace selected media…"),
            (MediaContextItem::Remove, "Remove selected media"),
        ],
        MediaContextTarget::Stream => seq![(MediaContextItem::Insert, "Insert selected at playhead")],
    }
}

/// The entries of the media library's context menu, with their text.
pub fn media_context_items(target: MediaContextTarget) -> (items: Vec<(MediaContextItem, &'static str)>)
    ensures
        items@ == context_items_for(target),
{
    let mut items: Vec<(MediaContextItem, &'static str)> = Vec::new();
    match target {
        MediaContextTarget::Empty => {
            items.push((MediaContextItem::NewComposition, "New Composition…"));
            items.push((MediaContextItem::Import, "Import media…"));
            items.push((MediaContextItem::ImportClipboard, "Import from clipboard"));
        },
        MediaContextTarget::Composition => {
            items.push((MediaContextItem::DuplicateComposition, "Duplicate Composition"));
            items.push((MediaContextItem::RenameComposition, "Rename Composition…"));
            items.push((MediaContextItem::DeleteComposition, "Delete Composition"));
            items.push((MediaContextItem::Insert, "Insert selected at playhead"));
        },
        MediaContextTarget::Media => {
            items.push((MediaContextItem::Insert, "Insert selected at playhead"));
            items.push((MediaContextItem::ReplaceSelectedMedia, "Replace selected media…"));
            items.push((MediaContextItem::Remove, "Remove selected media"));
        },
        MediaContextTarget::Stream => {
            items.push((MediaContextItem::Insert, "Insert selected at playhead"));
        },
    }
    assert(items@ =~= context_items_for(target));
    items
}

/// The icon of a context-menu entry.
pub open spec fn context_icon_of(item: MediaContextItem) -> AppIcon {
    match item {
        MediaContextItem::NewComposition => AppIcon::Composition,
        MediaContextItem::DuplicateComposition => AppIcon::Copy,
        MediaContextItem::RenameComposition => AppIcon::Rename,
        MediaContextItem::DeleteComposition => AppIcon::Delete,
        MediaContextItem::Import => AppIcon::Import,
        MediaContextItem::ImportClipboard => AppIcon::Paste,
        MediaContextItem::Insert => AppIcon::Timeline,
        MediaContextItem::ReplaceSelectedMedia => AppIcon::Restore,
        MediaContextItem::Remove => AppIcon::Remove,
    }
}

/// The icon of a context-menu entry.
pub fn media_context_icon(item: MediaContextItem) -> (icon: AppIcon)
    ensures
        icon == context_icon_of(item),
{
    match item {
        MediaContextItem::NewComposition => AppIcon::Composition,
        MediaContextItem::DuplicateComposition => AppIcon::Copy,
        MediaContextItem::RenameComposition => AppIcon::Rename,
        MediaContextItem::DeleteComposition => AppIcon::Delete,
        MediaContextItem::Import => AppIcon::Import,
        MediaContextItem::ImportClipboard => AppIcon::Paste,
        MediaContextItem::Insert => AppIcon::Timeline,
        MediaContextItem::ReplaceSelectedMedia => AppIcon::Restore,
        MediaContextItem::Remove => AppIcon::Remove,
    }
}

} // verus!
