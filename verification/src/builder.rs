//! Validated construction and queueing of render tasks.
//!
//! A task is complete only once exactly one audio and exactly one image
//! asset have been received for it. The builder hands out a fresh asset key
//! for each incoming part after checking its media type, and `build` yields
//! a task only when both required parts are present.
use vstd::prelude::*;

verus! {

use crate::ident::fresh_id;
use crate::progress::make_pending_value;
use crate::progress::pending_value;
use crate::store::EntryView;
use crate::store::OpView;
use crate::store::StoreModel;
use crate::task::RenderTask;
use crate::task::task_bytes;

/// The top-level class of an uploaded part's media type, together with the
/// full type name for error reporting.
pub struct MediaType {
    pub kind: MediaKind,
    pub essence: String,
}

/// The top-level classes the builder distinguishes.
pub enum MediaKind {
    Image,
    Audio,
    Other,
}

/// Why a task could not be built or queued.
#[derive(Debug)]
pub enum SaveFileError {
    /// A received part had a media type that is neither audio nor image, or
    /// a second part of an already satisfied type arrived.
    UnexpectedMime(String),
    /// A received part carried no media type at all.
    MissingMime,
    /// `build` was asked for a task while a required part was missing; the
    /// field names which one.
    MissingFile(&'static str),
}

impl SaveFileError {
    /// The HTTP status code the error is answered with: unsupported media
    /// (415) for a part of the wrong type, bad request (400) for a missing
    /// type or a missing part.
    pub fn status_code(&self) -> (r: u16)
        ensures
            self is UnexpectedMime ==> r == 415,
            self is MissingMime ==> r == 400,
            self is MissingFile ==> r == 400,
    {
        match self {
            SaveFileError::UnexpectedMime(_) => 415,
            SaveFileError::MissingMime => 400,
            SaveFileError::MissingFile(_) => 400,
        }
    }
}

impl RenderTask {
    /// Serialize the job and append it at the tail of the render queue; the
    /// result is its target key.
    pub fn queue(self, store: &mut StoreModel) -> (r: u128)
        requires
            old(store).wf(),
        ensures
            final(store).wf(),
            r == self.target,
            final(store)@.entries == old(store)@.entries,
            final(store)@.txn == old(store)@.txn,
            final(store)@.queue == old(store)@.queue.push(task_bytes(self)),
    {
        let payload = crate::task::encode_task(&self);
        store.push_task(payload);
        self.target
    }
}

/// Builder of a valid `RenderTask`: collects the asset keys of the parts
/// received so far for one target.
pub struct RenderTaskBuilder {
    target: u128,
    audio: Option<u128>,
    image: Option<u128>,
}

impl RenderTaskBuilder {
    /// The target key this builder was opened for.
    pub closed spec fn spec_target(&self) -> u128 {
        self.target
    }

    /// The audio asset key received so far, if any.
    pub closed spec fn spec_audio(&self) -> Option<u128> {
        self.audio
    }

    /// The image asset key received so far, if any.
    pub closed spec fn spec_image(&self) -> Option<u128> {
        self.image
    }

    /// Open a builder for a fresh target and record the pending marker for
    /// it in the store.
    pub fn new(store: &mut StoreModel) -> (r: RenderTaskBuilder)
        requires
            old(store).wf(),
        ensures
            final(store).wf(),
            r.spec_audio() is None,
            r.spec_image() is None,
            final(store)@.queue == old(store)@.queue,
            old(store)@.txn matches Some(ops) ==> final(store)@.txn == Some(
                ops.push(OpView::Put { key: r.spec_target(), value: pending_value() }),
            ) && final(store)@.entries == old(store)@.entries,
            old(store)@.txn is None ==> final(store)@.txn is None && final(store)@.entries
                == old(store)@.entries.insert(
                r.spec_target(),
                EntryView { value: pending_value(), ttl_secs: None },
            ),
    {
        let target = fresh_id();
        store.set(target, make_pending_value());
        RenderTaskBuilder { target, audio: None, image: None }
    }

    /// Check that the media type of an incoming part is valid in the current
    /// state of the builder, and hand out the fresh store key the part's
    /// data is to be stored under. A part of an already satisfied type, of a
    /// type that is neither audio nor image, or without a type is rejected.
    pub fn validate_type(&mut self, media_type: Option<&MediaType>) -> (r: Result<
        u128,
        SaveFileError,
    >)
        ensures
            final(self).spec_target() == old(self).spec_target(),
            media_type is None ==> (r matches Err(e) && e is MissingMime && *final(self)
                == *old(self)),
            media_type matches Some(m) && m.kind is Image && old(self).spec_image() is None
                ==> (r matches Ok(id) && final(self).spec_image() == Some(id)
                && final(self).spec_audio() == old(self).spec_audio()),
            media_type matches Some(m) && m.kind is Image && old(self).spec_image() is Some
                ==> (r matches Err(e) && e is UnexpectedMime && *final(self) == *old(self)),
            media_type matches Some(m) && m.kind is Audio && old(self).spec_audio() is None
                ==> (r matches Ok(id) && final(self).spec_audio() == Some(id)
                && final(self).spec_image() == old(self).spec_image()),
            media_type matches Some(m) && m.kind is Audio && old(self).spec_audio() is Some
                ==> (r matches Err(e) && e is UnexpectedMime && *final(self) == *old(self)),
            media_type matches Some(m) ==> (m.kind is Other ==> (r matches Err(
                SaveFileError::UnexpectedMime(msg),
            ) && msg@ == m.essence@ && *final(self) == *old(self))),
    {
        let media_type = match media_type {
            Some(mt) => mt,
            None => {
                return Err(SaveFileError::MissingMime);
            },
        };
        match media_type.kind {
            MediaKind::Image => {
                match self.image {
                    Some(_) => Err(
                        SaveFileError::UnexpectedMime(
                            "received more than one image".to_owned(),
                        ),
                    ),
                    None => {
                        let image_id = fresh_id();
                        self.image = Some(image_id);
                        Ok(image_id)
                    },
                }
            },
            MediaKind::Audio => {
                match self.audio {
                    Some(_) => Err(
                        SaveFileError::UnexpectedMime(
                            "received more than one audio".to_owned(),
                        ),
                    ),
                    None => {
                        let audio_id = fresh_id();
                        self.audio = Some(audio_id);
                        Ok(audio_id)
                    },
                }
            },
            MediaKind::Other => Err(SaveFileError::UnexpectedMime(media_type.essence.clone())),
        }
    }

    /// Close the builder: a task comes out exactly when both required parts
    /// have been received, and the missing part is named otherwise.
    pub fn build(self) -> (r: Result<RenderTask, SaveFileError>)
        ensures
            self.spec_audio() is None ==> (r matches Err(SaveFileError::MissingFile(f)) && f@
                == "audio"@),
            self.spec_audio() is Some && self.spec_image() is None ==> (r matches Err(
                SaveFileError::MissingFile(f),
            ) && f@ == "image"@),
            self.spec_audio() is Some && self.spec_image() is Some ==> r == Ok::<RenderTask, SaveFileError>(
                RenderTask {
                    target: self.spec_target(),
                    audio: self.spec_audio()->0,
                    image: self.spec_image()->0,
                },
            ),
    {
        let audio_id = match self.audio {
            Some(id) => id,
            None => {
                return Err(SaveFileError::MissingFile("audio"));
            },
        };
        let image_id = match self.image {
            Some(id) => id,
            None => {
                return Err(SaveFileError::MissingFile("image"));
            },
        };
        Ok(RenderTask { target: self.target, audio: audio_id, image: image_id })
    }
}

} // verus!
