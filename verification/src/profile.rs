//! The whole pipeline: from the bytes of a signed configuration profile to
//! its records.

use crate::document::DocumentError;
use crate::envelope::{decode, embedded_content, EnvelopeError, VerificationMode};
use crate::extract::{extract, extraction, ExtractionModel, ExtractionResult};
use crate::reader::{parse_document, plist_tree};
use vstd::prelude::*;

verus! {

/// Why a profile gave no extraction at all.
#[derive(Clone, Copy, Debug, PartialEq, Eq, Structural)]
pub enum ProfileError {
    /// The container could not be unwrapped.
    Envelope(EnvelopeError),
    /// The container's content is no document of the expected shape.
    Document(DocumentError),
}

/// The extraction of a container's content.
pub open spec fn content_extraction(content: Seq<u8>) -> Result<ExtractionModel, DocumentError> {
    match plist_tree(content) {
        Some(document) => extraction(document),
        None => Err(DocumentError::Malformed),
    }
}

/// The model of the envelope decoder's result.
pub open spec fn envelope_model(envelope: Result<Vec<u8>, EnvelopeError>) -> Result<
    Seq<u8>,
    EnvelopeError,
> {
    match envelope {
        Ok(content) => Ok(content@),
        Err(error) => Err(error),
    }
}

/// The extraction of a profile, given what became of its container.
pub open spec fn profile_extraction(envelope: Result<Seq<u8>, EnvelopeError>) -> Result<
    ExtractionModel,
    ProfileError,
> {
    match envelope {
        Err(error) => Err(ProfileError::Envelope(error)),
        Ok(content) => match content_extraction(content) {
            Ok(result) => Ok(result),
            Err(error) => Err(ProfileError::Document(error)),
        },
    }
}

/// A container that was not unwrapped and a content that is no document
/// both end the run without an extraction, and with errors that differ.
pub proof fn lemma_fatal_errors_differ(error: EnvelopeError, content: Seq<u8>)
    requires
        plist_tree(content) is None,
    ensures
        profile_extraction(Err(error)) == Err::<ExtractionModel, ProfileError>(
            ProfileError::Envelope(error),
        ),
        profile_extraction(Ok(content)) == Err::<ExtractionModel, ProfileError>(
            ProfileError::Document(DocumentError::Malformed),
        ),
        profile_extraction(Err(error)) != profile_extraction(Ok(content)),
{
}

/// Reads a container's content as a document and extracts its records.
pub fn extract_content(content: &[u8]) -> (extracted: Result<ExtractionResult, DocumentError>)
    ensures
        match extracted {
            Ok(result) => content_extraction(content@) == Ok::<ExtractionModel, DocumentError>(
                result@,
            ),
            Err(error) => content_extraction(content@) == Err::<ExtractionModel, DocumentError>(
                error,
            ),
        },
{
    match parse_document(content) {
        Err(error) => Err(error),
        Ok(document) => extract(&document),
    }
}

/// Carries on from the envelope decoder's result: a container that was not
/// unwrapped ends the run with its error, and the content of one that was
/// is read and extracted.
pub fn extract_envelope(envelope: Result<Vec<u8>, EnvelopeError>) -> (extracted: Result<
    ExtractionResult,
    ProfileError,
>)
    ensures
        match extracted {
            Ok(result) => profile_extraction(envelope_model(envelope)) == Ok::<
                ExtractionModel,
                ProfileError,
            >(result@),
            Err(error) => profile_extraction(envelope_model(envelope)) == Err::<
                ExtractionModel,
                ProfileError,
            >(error),
        },
        extracted matches Err(ProfileError::Envelope(_)) <==> envelope is Err,
{
    match envelope {
        Err(error) => Err(ProfileError::Envelope(error)),
        Ok(content) => match extract_content(content.as_slice()) {
            Ok(result) => Ok(result),
            Err(error) => Err(ProfileError::Document(error)),
        },
    }
}

/// Unwraps a signed profile, reads its content and extracts its records.
///
/// Whether the container is unwrapped is for the envelope decoder to find
/// out; where it is not, the run ends with `MalformedContainer`. Where it
/// is, the result is the extraction of the content that the container
/// embeds: its records and errors, or the error of a content that is no
/// document of the expected shape.
pub fn extract_profile(raw: &[u8], mode: VerificationMode) -> (extracted: Result<
    ExtractionResult,
    ProfileError,
>)
    ensures
        extracted matches Ok(result) ==> content_extraction(embedded_content(raw@)) == Ok::<
            ExtractionModel,
            DocumentError,
        >(result@),
        extracted matches Err(ProfileError::Document(error)) ==> content_extraction(
            embedded_content(raw@),
        ) == Err::<ExtractionModel, DocumentError>(error),
        extracted matches Err(ProfileError::Envelope(error)) ==> error
            == EnvelopeError::MalformedContainer,
{
    extract_envelope(decode(raw, mode))
}

} // verus!
