use vstd::prelude::*;
use vstd::string::*;

use crate::error::Error;
use crate::media::{kind_name, MediaKind, ProbeInfo};

verus! {

/// The error view: the message for the user and the details, if any.
pub open spec fn error_view(e: Error) -> (Seq<char>, Option<Seq<char>>) {
    (
        e.human@,
        match e.technical {
            Some(t) => Some(t@),
            None => None,
        },
    )
}

/// The verdict on an output file from what the file system says of it: it
/// must be a regular file and not empty.
pub open spec fn file_verdict(is_file: bool, size: u64) -> Option<Seq<char>> {
    if !is_file {
        Some("The output file was not created."@)
    } else if size == 0 {
        Some("The output file is empty."@)
    } else {
        None
    }
}

/// The verdict on an output file from what probing found: the kind must be the
/// expected one (a single-frame video passes for an image), and the file must
/// have a usable size or an audio track.
pub open spec fn media_verdict(expected: Option<MediaKind>, probed: ProbeInfo) -> Option<
    (Seq<char>, Option<Seq<char>>),
> {
    let width = match probed.width {
        Some(w) => w as int,
        None => 0,
    };
    match expected {
        Some(k) if probed.kind != k && !(k == MediaKind::Image && probed.kind == MediaKind::Video) => Some(
            (
                "The output file is not the expected media type."@,
                Some("expected "@ + kind_name(k) + " got "@ + kind_name(probed.kind)),
            ),
        ),
        _ => match probed.kind {
            MediaKind::Video => if width < 2 {
                Some(("The output video has an invalid size."@, None))
            } else {
                None
            },
            MediaKind::Image => if width < 1 {
                Some(("The output image has an invalid size."@, None))
            } else {
                None
            },
            MediaKind::Audio => if !probed.has_audio {
                Some(("The output audio file has no audio track."@, None))
            } else {
                None
            },
        },
    }
}

/// Checks that the output file exists as a file and is not empty.
pub fn check_output_file(is_file: bool, size: u64) -> (r: Result<(), Error>)
    ensures
        match (r, file_verdict(is_file, size)) {
            (Ok(()), None) => true,
            (Err(e), Some(m)) => error_view(e) == (m, None::<Seq<char>>),
            _ => false,
        },
{
    if !is_file {
        return Err(Error::user(String::from_str("The output file was not created.")));
    }
    if size == 0 {
        return Err(Error::user(String::from_str("The output file is empty.")));
    }
    Ok(())
}

/// Checks what probing the output file found against the expected kind.
pub fn validate_media(expected: Option<MediaKind>, probed: &ProbeInfo) -> (r: Result<(), Error>)
    ensures
        match (r, media_verdict(expected, *probed)) {
            (Ok(()), None) => true,
            (Err(e), Some(v)) => error_view(e) == v,
            _ => false,
        },
{
    if let Some(kind) = expected {
        let same = kind == probed.kind;
        let image_as_video = kind == MediaKind::Image && probed.kind == MediaKind::Video;
        if !same && !image_as_video {
            let mut details = String::from_str("expected ");
            details.append(kind.name());
            details.append(" got ");
            details.append(probed.kind.name());
            return Err(
                Error::detailed(
                    String::from_str("The output file is not the expected media type."),
                    details,
                ),
            );
        }
    }
    let width: u32 = match probed.width {
        Some(w) => w,
        None => 0,
    };
    match probed.kind {
        MediaKind::Video => if width < 2 {
            return Err(Error::user(String::from_str("The output video has an invalid size.")));
        },
        MediaKind::Image => if width < 1 {
            return Err(Error::user(String::from_str("The output image has an invalid size.")));
        },
        MediaKind::Audio => if !probed.has_audio {
            return Err(Error::user(String::from_str("The output audio file has no audio track.")));
        },
    }
    Ok(())
}

} // verus!
