use vstd::prelude::*;
use vstd::string::*;

use crate::error::Error;
use crate::paths::{chars_of, text_of};
use crate::text::{opt_view, same_text};
use crate::validate::error_view;

verus! {

/// The family a media file belongs to.
#[derive(Debug, Clone, Copy, PartialEq, Eq, Structural)]
pub enum MediaKind {
    Image,
    Video,
    Audio,
}

/// What probing a media file found out.
#[derive(Debug, Clone)]
pub struct ProbeInfo {
    pub kind: MediaKind,
    pub width: Option<u32>,
    pub height: Option<u32>,
    pub video_codec: Option<String>,
    pub audio_codec: Option<String>,
    pub has_audio: bool,
}

/// The name of a kind, as it is written in messages.
pub open spec fn kind_name(k: MediaKind) -> Seq<char> {
    match k {
        MediaKind::Image => "Image"@,
        MediaKind::Video => "Video"@,
        MediaKind::Audio => "Audio"@,
    }
}

impl MediaKind {
    /// The name of the kind.
    pub fn name(self) -> (r: &'static str)
        ensures
            r@ == kind_name(self),
    {
        match self {
            MediaKind::Image => "Image",
            MediaKind::Video => "Video",
            MediaKind::Audio => "Audio",
        }
    }
}

/// A container name that ffprobe reports for still images.
pub open spec fn is_image_format(name: Seq<char>) -> bool {
    ||| name == "image2"@
    ||| name == "png_pipe"@
    ||| name == "jpeg_pipe"@
    ||| name == "webp_pipe"@
    ||| name == "bmp_pipe"@
    ||| name == "gif"@
    ||| name == "tiff_pipe"@
    ||| name == "avif"@
}

/// No comma in `s` from `i` up to (not including) `j`.
pub open spec fn no_comma(s: Seq<char>, i: int, j: int) -> bool {
    forall|m: int| i <= m < j ==> s[m] != ','
}

/// `s[i..j]` is one of the comma-separated names in `s`.
pub open spec fn is_piece(s: Seq<char>, i: int, j: int) -> bool {
    &&& 0 <= i <= j <= s.len()
    &&& (i == 0 || s[i - 1] == ',')
    &&& (j == s.len() || s[j] == ',')
    &&& no_comma(s, i, j)
}

/// The comma-separated list `s` of format names holds an image format.
pub open spec fn lists_image_format(s: Seq<char>) -> bool {
    exists|i: int, j: int| #[trigger] is_piece(s, i, j) && is_image_format(s.subrange(i, j))
}

/// The kind of a file with (or without) a video and an audio stream, whose
/// container names are `format`: none without either stream.
pub open spec fn media_kind_of(has_video: bool, has_audio: bool, format: Seq<char>) -> Option<MediaKind> {
    if has_video && lists_image_format(format) {
        Some(MediaKind::Image)
    } else if has_video {
        Some(MediaKind::Video)
    } else if has_audio {
        Some(MediaKind::Audio)
    } else {
        None
    }
}

pub open spec fn no_media_message() -> Seq<char> {
    "This file has no audio or video."@
}

/// Whether `name` is a container name for still images.
fn image_format_name(name: &str) -> (r: bool)
    ensures
        r == is_image_format(name@),
{
    same_text(name, "image2") || same_text(name, "png_pipe") || same_text(name, "jpeg_pipe")
        || same_text(name, "webp_pipe") || same_text(name, "bmp_pipe") || same_text(name, "gif")
        || same_text(name, "tiff_pipe") || same_text(name, "avif")
}

/// Whether the comma-separated format names hold an image format.
pub fn names_image_format(format: &str) -> (r: bool)
    ensures
        r == lists_image_format(format@),
{
    let v = chars_of(format);
    let n = v.len();
    let mut start: usize = 0;
    let mut k: usize = 0;
    while k < n
        invariant
            v@ == format@,
            n == v@.len(),
            start <= k <= n,
            start == 0 || v@[start - 1] == ',',
            no_comma(v@, start as int, k as int),
            forall|i: int, j: int|
                #[trigger] is_piece(v@, i, j) && j < k ==> !is_image_format(v@.subrange(i, j)),
        decreases n - k,
    {
        if v[k] == ',' {
            let piece = text_of(&v, start, k);
            if image_format_name(piece.as_str()) {
                assert(is_piece(v@, start as int, k as int));
                return true;
            }
            assert forall|i: int, j: int| #[trigger]
                is_piece(v@, i, j) && j < k + 1 implies !is_image_format(v@.subrange(i, j)) by {
                if j == k {
                    if i < start {
                        assert(v@[start - 1] == ',');
                    } else if i > start {
                        assert(v@[i - 1] == ',');
                    }
                }
            }
            start = k + 1;
        } else {
            assert forall|i: int, j: int| #[trigger]
                is_piece(v@, i, j) && j < k + 1 implies !is_image_format(v@.subrange(i, j)) by {
                if j == k {
                    assert(v@[k as int] != ',');
                }
            }
        }
        k = k + 1;
    }
    let piece = text_of(&v, start, n);
    let r = image_format_name(piece.as_str());
    if r {
        assert(is_piece(v@, start as int, n as int));
    } else {
        assert forall|i: int, j: int| #[trigger]
            is_piece(v@, i, j) implies !is_image_format(v@.subrange(i, j)) by {
            if j == n {
                if i < start {
                    assert(v@[start - 1] == ',');
                } else if i > start {
                    assert(v@[i - 1] == ',');
                }
            }
        }
    }
    r
}

/// The kind of a probed file from its streams and container names, or an
/// error when it has neither video nor audio.
pub fn classify_media(has_video: bool, has_audio: bool, format: &str) -> (r: Result<MediaKind, Error>)
    ensures
        match media_kind_of(has_video, has_audio, format@) {
            Some(k) => r == Ok::<MediaKind, Error>(k),
            None => r matches Err(e) && error_view(e) == (no_media_message(), None::<Seq<char>>),
        },
{
    if has_video && names_image_format(format) {
        Ok(MediaKind::Image)
    } else if has_video {
        Ok(MediaKind::Video)
    } else if has_audio {
        Ok(MediaKind::Audio)
    } else {
        Err(Error::user(String::from_str("This file has no audio or video.")))
    }
}

/// What ffprobe reported of one stream of a file.
#[derive(Debug, Clone)]
pub struct StreamFacts {
    pub codec_type: String,
    /// The stream is a cover picture attached to the file.
    pub attached_pic: bool,
    pub codec_name: Option<String>,
    pub width: Option<u64>,
    pub height: Option<u64>,
}

/// The stream is the kind wanted: a video stream that is not an attached
/// picture, or an audio stream.
pub open spec fn wanted(s: StreamFacts, video: bool) -> bool {
    if video {
        s.codec_type@ == "video"@ && !s.attached_pic
    } else {
        s.codec_type@ == "audio"@
    }
}

/// `i` is the position of the first wanted stream.
pub open spec fn is_first(ss: Seq<StreamFacts>, video: bool, i: int) -> bool {
    &&& 0 <= i < ss.len()
    &&& wanted(ss[i], video)
    &&& forall|j: int| 0 <= j < i ==> !wanted(#[trigger] ss[j], video)
}

/// The first wanted stream, if there is one.
pub open spec fn first_stream(ss: Seq<StreamFacts>, video: bool) -> Option<StreamFacts> {
    if exists|i: int| #[trigger] is_first(ss, video, i) {
        Some(ss[choose|i: int| #[trigger] is_first(ss, video, i)])
    } else {
        None
    }
}

/// A size that fits in 32 bits, or none.
pub open spec fn fitting(n: Option<u64>) -> Option<u32> {
    match n {
        Some(x) => if x <= u32::MAX {
            Some(x as u32)
        } else {
            None
        },
        None => None,
    }
}

/// A field of an optional stream.
pub open spec fn size_of_stream(s: Option<StreamFacts>, width: bool) -> Option<u32> {
    match s {
        Some(v) => fitting(if width { v.width } else { v.height }),
        None => None,
    }
}

pub open spec fn codec_of(s: Option<StreamFacts>) -> Option<Seq<char>> {
    match s {
        Some(v) => opt_view(v.codec_name),
        None => None,
    }
}

/// `p` is what the streams `ss` and container names `format` tell of a file.
pub open spec fn describes(p: ProbeInfo, ss: Seq<StreamFacts>, format: Seq<char>) -> bool {
    let video = first_stream(ss, true);
    let audio = first_stream(ss, false);
    &&& media_kind_of(video is Some, audio is Some, format) == Some(p.kind)
    &&& p.width == size_of_stream(video, true)
    &&& p.height == size_of_stream(video, false)
    &&& opt_view(p.video_codec) == codec_of(video)
    &&& opt_view(p.audio_codec) == codec_of(audio)
    &&& p.has_audio == audio is Some
}

/// Finds the first wanted stream.
fn find_stream(ss: &Vec<StreamFacts>, video: bool) -> (r: Option<usize>)
    ensures
        match r {
            Some(i) => is_first(ss@, video, i as int),
            None => forall|j: int| 0 <= j < ss@.len() ==> !wanted(#[trigger] ss@[j], video),
        },
{
    let mut i: usize = 0;
    while i < ss.len()
        invariant
            i <= ss@.len(),
            forall|j: int| 0 <= j < i ==> !wanted(#[trigger] ss@[j], video),
        decreases ss@.len() - i,
    {
        let s = &ss[i];
        let hit = if video {
            same_text(s.codec_type.as_str(), "video") && !s.attached_pic
        } else {
            same_text(s.codec_type.as_str(), "audio")
        };
        if hit {
            return Some(i);
        }
        i = i + 1;
    }
    None
}

/// The first wanted stream is the one at `i`, or there is none.
proof fn lemma_first_stream(ss: Seq<StreamFacts>, video: bool, r: Option<usize>)
    requires
        match r {
            Some(i) => is_first(ss, video, i as int),
            None => forall|j: int| 0 <= j < ss.len() ==> !wanted(#[trigger] ss[j], video),
        },
    ensures
        first_stream(ss, video) == match r {
            Some(i) => Some(ss[i as int]),
            None => None::<StreamFacts>,
        },
{
    match r {
        Some(i) => {
            assert(is_first(ss, video, i as int));
            let c = choose|k: int| #[trigger] is_first(ss, video, k);
            assert(is_first(ss, video, c));
            if c < i {
                assert(!wanted(ss[c], video));
            } else if i < c {
                assert(!wanted(ss[i as int], video));
            }
        },
        None => {
            if exists|k: int| #[trigger] is_first(ss, video, k) {
                let c = choose|k: int| #[trigger] is_first(ss, video, k);
                assert(!wanted(ss[c], video));
            }
        },
    }
}

/// A size that fits in 32 bits, or none.
fn fit(n: Option<u64>) -> (r: Option<u32>)
    ensures
        r == fitting(n),
{
    match n {
        Some(x) => if x <= 0xffff_ffffu64 {
            Some(x as u32)
        } else {
            None
        },
        None => None,
    }
}

/// What a probed file is, from its streams and container names: its kind (an
/// error when it has neither video nor audio), the size and codec of its first
/// video stream that is not an attached picture, and the codec of its first
/// audio stream.
pub fn probe_info(streams: &Vec<StreamFacts>, format: &str) -> (r: Result<ProbeInfo, Error>)
    ensures
        match r {
            Ok(p) => describes(p, streams@, format@),
            Err(e) => media_kind_of(
                first_stream(streams@, true) is Some,
                first_stream(streams@, false) is Some,
                format@,
            ) is None && error_view(e) == (no_media_message(), None::<Seq<char>>),
        },
        media_kind_of(
            first_stream(streams@, true) is Some,
            first_stream(streams@, false) is Some,
            format@,
        ) is Some ==> r is Ok,
{
    let v = find_stream(streams, true);
    let a = find_stream(streams, false);
    proof {
        lemma_first_stream(streams@, true, v);
        lemma_first_stream(streams@, false, a);
    }
    let kind = classify_media(v.is_some(), a.is_some(), format)?;
    let (width, height, video_codec) = match v {
        Some(i) => (fit(streams[i].width), fit(streams[i].height), streams[i].codec_name.clone()),
        None => (None, None, None),
    };
    let audio_codec = match a {
        Some(i) => streams[i].codec_name.clone(),
        None => None,
    };
    Ok(ProbeInfo { kind, width, height, video_codec, audio_codec, has_audio: a.is_some() })
}

} // verus!
