//! How an upload is taken in, and what is answered when work on files fails.
//!
//! First the form is gone through for the field with the file. Then a name is
//! found for it, and its content is stored, piece by piece.

use crate::files::{file_meta, is_media_meta, FileStat, MediaMeta};
use crate::http::{
    plain_error, AppError, ErrorView, BAD_REQUEST, INTERNAL_SERVER_ERROR, NOT_FOUND,
};
use crate::media::MediaPath;
use crate::names::{safe, safe_name};
use crate::path::{is_media, is_media_name};
use crate::stats::Stats;
use crate::stream::not_found;
use crate::text::{opt_text, same_text};
use vstd::prelude::*;
use vstd::utf8::encode_utf8;

verus! {

/// Work outside the library that failed.
#[derive(Clone, Copy, Debug, PartialEq, Eq)]
pub enum Fault {
    /// The start page could not be read.
    IndexMissing,
    /// The directory of uploads could not be opened.
    UploadDirMissing,
    /// The directory of uploads could not be read.
    UploadDirUnreadable,
    /// The body of a request is no multipart form.
    BodyInvalid,
    /// The form has no field with a file.
    FileFieldMissing,
    /// It could not be found out whether a name is taken.
    NameUnchecked,
    /// The file of an upload could not be created.
    NotCreated,
    /// The content of an upload could not be received.
    NotReceived,
    /// The content of an upload could not be written.
    NotWritten,
    /// The path of an upload could not be resolved.
    NotResolved,
}

impl Fault {
    /// What the fault is answered with.
    pub open spec fn answer(self) -> ErrorView {
        match self {
            Fault::IndexMissing => plain_error(NOT_FOUND, "index not found"@),
            Fault::UploadDirMissing => plain_error(NOT_FOUND, "upload dir not found"@),
            Fault::UploadDirUnreadable => plain_error(
                INTERNAL_SERVER_ERROR,
                "failed to read upload dir"@,
            ),
            Fault::BodyInvalid => plain_error(BAD_REQUEST, "invalid multipart body"@),
            Fault::FileFieldMissing => plain_error(BAD_REQUEST, "file field is required"@),
            Fault::NameUnchecked => plain_error(
                INTERNAL_SERVER_ERROR,
                "failed to check upload path"@,
            ),
            Fault::NotCreated => plain_error(INTERNAL_SERVER_ERROR, "failed to create upload"@),
            Fault::NotReceived => plain_error(BAD_REQUEST, "failed to read upload"@),
            Fault::NotWritten => plain_error(INTERNAL_SERVER_ERROR, "failed to write upload"@),
            Fault::NotResolved => plain_error(INTERNAL_SERVER_ERROR, "failed to resolve upload"@),
        }
    }

    /// The error that the fault is answered with.
    pub fn error(self) -> (e: AppError)
        ensures
            e@ == self.answer(),
    {
        match self {
            Fault::IndexMissing => AppError::new(NOT_FOUND, "index not found"),
            Fault::UploadDirMissing => AppError::new(NOT_FOUND, "upload dir not found"),
            Fault::UploadDirUnreadable => AppError::new(
                INTERNAL_SERVER_ERROR,
                "failed to read upload dir",
            ),
            Fault::BodyInvalid => AppError::new(BAD_REQUEST, "invalid multipart body"),
            Fault::FileFieldMissing => AppError::new(BAD_REQUEST, "file field is required"),
            Fault::NameUnchecked => AppError::new(
                INTERNAL_SERVER_ERROR,
                "failed to check upload path",
            ),
            Fault::NotCreated => AppError::new(INTERNAL_SERVER_ERROR, "failed to create upload"),
            Fault::NotReceived => AppError::new(BAD_REQUEST, "failed to read upload"),
            Fault::NotWritten => AppError::new(INTERNAL_SERVER_ERROR, "failed to write upload"),
            Fault::NotResolved => AppError::new(INTERNAL_SERVER_ERROR, "failed to resolve upload"),
        }
    }
}

/// What the form of an upload goes on with.
pub enum FormEvent<'a> {
    /// The request, before anything of the form was read.
    Begin,
    /// A field, with its name and the name of the file in it.
    Field { name: Option<&'a str>, file_name: Option<&'a str> },
    /// Something that is no field.
    Invalid,
    /// Nothing more.
    End,
}

/// What to do with the form of an upload.
pub enum FormAction {
    /// Go on with the next field.
    NextField,
    /// Store the content of the field under this name.
    Store(String),
    /// Answer with the error.
    Fail(AppError),
}

/// The file name that a field of a form stands for.
pub open spec fn field_file_name(file_name: Option<Seq<char>>) -> Seq<char> {
    match file_name {
        Some(name) => safe(name),
        None => safe("upload"@),
    }
}

/// Goes on with the form of an upload: the field named `file` is stored if its
/// file name is that of a media file, and other fields are passed over. The
/// request is counted when it begins.
pub fn upload_file(stats: &mut Stats, event: FormEvent<'_>) -> (r: FormAction)
    ensures
        *final(stats) == (if event is Begin {
            old(stats).upload_begun()
        } else {
            *old(stats)
        }),
        match event {
            FormEvent::Begin => r is NextField,
            FormEvent::Field { name, file_name } => {
                let stored = field_file_name(opt_text(file_name));
                if opt_text(name) != Some("file"@) {
                    r is NextField
                } else if is_media(encode_utf8(stored)) {
                    r matches FormAction::Store(s) && s@ == stored
                } else {
                    r matches FormAction::Fail(e) && e@ == plain_error(
                        BAD_REQUEST,
                        "unsupported media extension"@,
                    )
                }
            },
            FormEvent::Invalid => r matches FormAction::Fail(e) && e@
                == Fault::BodyInvalid.answer(),
            FormEvent::End => r matches FormAction::Fail(e) && e@
                == Fault::FileFieldMissing.answer(),
        },
{
    match event {
        FormEvent::Begin => {
            stats.begin_upload();
            FormAction::NextField
        },
        FormEvent::Field { name, file_name } => {
            match name {
                Some(name) => if !same_text(name, "file") {
                    return FormAction::NextField;
                },
                None => {
                    return FormAction::NextField;
                },
            }
            let stored = match file_name {
                Some(name) => safe_name(name),
                None => safe_name("upload"),
            };
            if is_media_name(stored.as_str().as_bytes()) {
                FormAction::Store(stored)
            } else {
                FormAction::Fail(AppError::new(BAD_REQUEST, "unsupported media extension"))
            }
        },
        FormEvent::Invalid => FormAction::Fail(Fault::BodyInvalid.error()),
        FormEvent::End => FormAction::Fail(Fault::FileFieldMissing.error()),
    }
}

/// What came of the work on storing an upload.
pub enum StoreEvent {
    /// The file was created, or could not be.
    Created(bool),
    /// A piece of the content came in, of so many bytes.
    Received(u64),
    /// The content could not be received.
    Broken,
    /// The piece was written, or could not be.
    Written(bool),
    /// All of the content came in.
    Complete,
    /// The path of the file was resolved, or could not be, and the file system
    /// was asked about the file.
    Resolved { path: Option<MediaPath>, stat: Option<FileStat> },
}

/// What to do to store an upload.
pub enum StoreAction {
    /// Receive the next piece.
    Receive,
    /// Write the piece that came in.
    Write,
    /// Resolve the path of the file.
    Resolve,
    /// Answer with the description of the file.
    Done(MediaMeta),
    /// Answer with the error.
    Fail(AppError),
}

/// The counters after what came of the work on storing an upload.
pub open spec fn store_counted(stats: Stats, event: StoreEvent) -> Stats {
    match event {
        StoreEvent::Received(bytes) => stats.uploaded(bytes),
        _ => stats,
    }
}

/// Goes on with storing an upload. Each piece is counted as it comes in, and is
/// then written; the file is described once all is stored.
pub fn store_step(stats: &mut Stats, event: StoreEvent) -> (r: StoreAction)
    ensures
        *final(stats) == store_counted(*old(stats), event),
        match event {
            StoreEvent::Created(true) => r is Receive,
            StoreEvent::Created(false) => r matches StoreAction::Fail(e) && e@
                == Fault::NotCreated.answer(),
            StoreEvent::Received(_) => r is Write,
            StoreEvent::Broken => r matches StoreAction::Fail(e) && e@
                == Fault::NotReceived.answer(),
            StoreEvent::Written(true) => r is Receive,
            StoreEvent::Written(false) => r matches StoreAction::Fail(e) && e@
                == Fault::NotWritten.answer(),
            StoreEvent::Complete => r is Resolve,
            StoreEvent::Resolved { path: None, .. } => r matches StoreAction::Fail(e) && e@
                == Fault::NotResolved.answer(),
            StoreEvent::Resolved { path: Some(_), stat: None } => r matches StoreAction::Fail(e)
                && e@ == not_found(),
            StoreEvent::Resolved { path: Some(path), stat: Some(stat) } => r matches
                StoreAction::Done(meta) && is_media_meta(meta, path, stat),
        },
{
    match event {
        StoreEvent::Created(created) => if created {
            StoreAction::Receive
        } else {
            StoreAction::Fail(Fault::NotCreated.error())
        },
        StoreEvent::Received(bytes) => {
            stats.count_upload(bytes);
            StoreAction::Write
        },
        StoreEvent::Broken => StoreAction::Fail(Fault::NotReceived.error()),
        StoreEvent::Written(written) => if written {
            StoreAction::Receive
        } else {
            StoreAction::Fail(Fault::NotWritten.error())
        },
        StoreEvent::Complete => StoreAction::Resolve,
        StoreEvent::Resolved { path, stat } => match path {
            Some(path) => match file_meta(&path, stat) {
                Ok(meta) => StoreAction::Done(meta),
                Err(e) => StoreAction::Fail(e),
            },
            None => StoreAction::Fail(Fault::NotResolved.error()),
        },
    }
}

/// The counters after all that came of the work on storing an upload.
pub open spec fn all_counted(stats: Stats, events: Seq<StoreEvent>) -> Stats
    decreases events.len(),
{
    if events.len() == 0 {
        stats
    } else {
        all_counted(store_counted(stats, events[0]), events.drop_first())
    }
}

/// How many bytes came in.
pub open spec fn received(events: Seq<StoreEvent>) -> nat
    decreases events.len(),
{
    if events.len() == 0 {
        0
    } else {
        let rest = received(events.drop_first());
        match events[0] {
            StoreEvent::Received(bytes) => bytes as nat + rest,
            _ => rest,
        }
    }
}

/// Whatever comes of an upload, it is counted with exactly the bytes that came
/// in, modulo the number of values of a counter, and nothing else is counted.
pub proof fn law_upload_is_counted(stats: Stats, events: Seq<StoreEvent>)
    ensures
        all_counted(stats, events) == (Stats {
            upload_bytes: ((stats.upload_bytes + received(events)) % 0x1_0000_0000_0000_0000) as u64,
            ..stats
        }),
    decreases events.len(),
{
    if events.len() > 0 {
        law_upload_is_counted(store_counted(stats, events[0]), events.drop_first());
    }
}

/// A field goes by the safe form of its file name, and by `upload` without one. A
/// name that needs no change goes by itself.
pub proof fn law_field_file_name(value: Seq<char>)
    ensures
        field_file_name(Some(value)) == safe(value),
        field_file_name(None) == "upload"@,
        !is_media(encode_utf8(field_file_name(None))),
{
    reveal_strlit("upload");
    let u = "upload"@;
    crate::names::law_name_is_kept(u);
    let f = encode_utf8(u);
    vstd::utf8::is_ascii_chars_encode_utf8(u);
    assert forall|i: int| 0 <= i < f.len() implies f[i] != 46 && f[i] != 47 by {
        assert(u[i] != '.' && u[i] != '/');
    }
    crate::path::lemma_single_component(f);
    crate::path::lemma_last_dot_is_dot(f);
}

} // verus!
