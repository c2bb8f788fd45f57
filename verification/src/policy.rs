//! The matching policy: classify the event, extract a fingerprint, query the
//! index, and decide whether to report a duplicate or record a new entry.

use vstd::prelude::*;

use crate::extract::extract;
use crate::extract::image_decodes;
use crate::extract::phash_of;
use crate::index::has_candidate;
use crate::index::is_best_match;
use crate::index::labels_upserted;
use crate::index::record_exists;
use crate::index::ClosestMatch;
use crate::index::DuplicateIndex;
use crate::index::IndexError;
use crate::index::Record;

verus! {

/// The coarse content class of a document attachment's declared type.
#[derive(Clone, Copy, Debug)]
pub enum MimeClass {
    /// The declared top-level type is `image`.
    Image,
    /// Any other declared top-level type.
    Other,
}

/// What an incoming message carries.
#[derive(Clone, Copy, Debug)]
pub enum Attachment {
    /// A compressed photo.
    Photo,
    /// A generic document, with its declared content class when one is known.
    Document(Option<MimeClass>),
    /// Neither a photo nor a document.
    NoAttachment,
}

/// An attachment is fingerprinted only when it is a photo, or a document
/// whose declared content class is `image`; anything else is ignored.
pub open spec fn spec_is_image_attachment(a: Attachment) -> bool {
    match a {
        Attachment::Photo => true,
        Attachment::Document(c) => c matches Some(MimeClass::Image),
        Attachment::NoAttachment => false,
    }
}

/// Decides whether a message's attachment is to be treated as an image and
/// fingerprinted at all.
pub fn is_image_attachment(a: &Attachment) -> (b: bool)
    ensures
        b == spec_is_image_attachment(*a),
{
    match a {
        Attachment::Photo => true,
        Attachment::Document(Some(MimeClass::Image)) => true,
        _ => false,
    }
}

/// The decision for one ingested image event.
#[derive(Clone, Copy, PartialEq, Eq, Structural, Debug)]
pub enum IngestOutcome {
    /// The bytes are not a decodable image; the index was never consulted.
    NotAnImage,
    /// A prior record lies within the threshold: its id and its distance.
    /// Nothing was inserted.
    Duplicate(i32, u8),
    /// No prior record lies within the threshold; the fingerprint was
    /// recorded under the given id.
    Recorded,
}

/// The answer to an explicit similarity probe.
#[derive(Clone, Copy, PartialEq, Eq, Structural, Debug)]
pub enum CompareOutcome {
    /// The bytes are not a decodable image.
    NoImage,
    /// The partition holds no prior record other than the excluded one.
    NoPriorRecords,
    /// The nearest prior record: its id and its distance.
    Closest(i32, u8),
}

/// Ingests one image event: extracts the fingerprint, queries the partition
/// under `threshold`, and either reports the nearest duplicate or records the
/// fingerprint as a new record, upserting the partition's label. Bytes that
/// do not decode are classified `NotAnImage`; they, an out-of-range
/// threshold, and a reused record id all leave the index untouched.
pub fn ingest(
    index: &mut DuplicateIndex,
    chat_id: i64,
    chat_title: &str,
    message_id: i32,
    bytes: &[u8],
    threshold: u8,
) -> (r: Result<IngestOutcome, IndexError>)
    requires
        old(index).wf(),
    ensures
        final(index).wf(),
        !image_decodes(bytes@) ==> r == Ok::<IngestOutcome, IndexError>(IngestOutcome::NotAnImage)
            && *final(index) == *old(index),
        image_decodes(bytes@) && threshold > 64 ==> r == Err::<IngestOutcome, IndexError>(
            IndexError::InvalidThreshold,
        ) && *final(index) == *old(index),
        image_decodes(bytes@) && threshold <= 64 && has_candidate(
            old(index).records(),
            chat_id,
            phash_of(bytes@),
            threshold as nat,
            None,
        ) ==> (r matches Ok(IngestOutcome::Duplicate(id, d)) && is_best_match(
            old(index).records(),
            chat_id,
            phash_of(bytes@),
            threshold as nat,
            None,
            ClosestMatch { message_id: id, distance: d },
        )) && *final(index) == *old(index),
        image_decodes(bytes@) && threshold <= 64 && !has_candidate(
            old(index).records(),
            chat_id,
            phash_of(bytes@),
            threshold as nat,
            None,
        ) && !record_exists(old(index).records(), chat_id, message_id) ==> r == Ok::<
            IngestOutcome,
            IndexError,
        >(IngestOutcome::Recorded) && final(index).records() == old(index).records().push(
            Record { chat_id, message_id, phash: phash_of(bytes@) },
        ) && labels_upserted(old(index).labels(), final(index).labels(), chat_id, chat_title@),
        image_decodes(bytes@) && threshold <= 64 && !has_candidate(
            old(index).records(),
            chat_id,
            phash_of(bytes@),
            threshold as nat,
            None,
        ) && record_exists(old(index).records(), chat_id, message_id) ==> r == Err::<
            IngestOutcome,
            IndexError,
        >(IndexError::DuplicateRecord) && final(index).records() == old(index).records()
            && final(index).labels() == old(index).labels(),
{
    let phash = match extract(bytes) {
        Ok(h) => h,
        Err(_) => {
            return Ok(IngestOutcome::NotAnImage);
        },
    };
    match index.find_closest_match(chat_id, phash, threshold, None) {
        Err(e) => Err(e),
        Ok(Some(m)) => Ok(IngestOutcome::Duplicate(m.message_id, m.distance)),
        Ok(None) => match index.save_image(chat_id, chat_title, message_id, phash) {
            Ok(()) => Ok(IngestOutcome::Recorded),
            Err(e) => Err(e),
        },
    }
}

/// Answers an explicit "how similar is this" probe: the nearest prior record
/// of the partition other than `exclude_message_id`, at any distance (the
/// threshold is fixed at the maximum, 64). Reads the index and never changes
/// it.
pub fn compare_against(
    index: &DuplicateIndex,
    chat_id: i64,
    bytes: &[u8],
    exclude_message_id: i32,
) -> (r: CompareOutcome)
    ensures
        !image_decodes(bytes@) ==> r == CompareOutcome::NoImage,
        image_decodes(bytes@) && !has_candidate(
            index.records(),
            chat_id,
            phash_of(bytes@),
            64,
            Some(exclude_message_id),
        ) ==> r == CompareOutcome::NoPriorRecords,
        image_decodes(bytes@) && has_candidate(
            index.records(),
            chat_id,
            phash_of(bytes@),
            64,
            Some(exclude_message_id),
        ) ==> (r matches CompareOutcome::Closest(id, d) && is_best_match(
            index.records(),
            chat_id,
            phash_of(bytes@),
            64,
            Some(exclude_message_id),
            ClosestMatch { message_id: id, distance: d },
        )),
{
    let phash = match extract(bytes) {
        Ok(h) => h,
        Err(_) => {
            return CompareOutcome::NoImage;
        },
    };
    match index.find_closest_match(chat_id, phash, 64, Some(exclude_message_id)) {
        Ok(Some(m)) => CompareOutcome::Closest(m.message_id, m.distance),
        Ok(None) => CompareOutcome::NoPriorRecords,
        Err(_) => {
            proof {
                assert(false);
            }
            CompareOutcome::NoPriorRecords
        },
    }
}

} // verus!
