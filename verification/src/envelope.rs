//! The envelope decoder: recovers the content that a signed-data container
//! wraps, without asking who signed it.

use vstd::prelude::*;

verus! {

/// `openssl::pkcs7::Pkcs7`, a PKCS#7 structure; nothing inside it is seen
/// here.
#[verifier::external_type_specification]
#[verifier::external_body]
pub struct ExPkcs7(openssl::pkcs7::Pkcs7);

/// `openssl::error::ErrorStack`, carried through as it is.
#[verifier::external_type_specification]
#[verifier::external_body]
pub struct ExErrorStack(openssl::error::ErrorStack);

/// How far the signer of a container is examined.
#[derive(Clone, Copy, Debug, PartialEq, Eq, Structural)]
pub enum VerificationMode {
    /// The container must be a well-formed signed-data structure, and its
    /// content must be recoverable. The signer's certificate is not held
    /// against any trust anchor, and its chain is not checked: content
    /// recovered in this mode comes from a signer nobody has vouched for.
    StructuralOnly,
}

/// Why a container gave no content.
#[derive(Clone, Copy, Debug, PartialEq, Eq, Structural)]
pub enum EnvelopeError {
    /// The bytes are no signed-data container, or its content cannot be
    /// detached from it.
    MalformedContainer,
}

/// The content that a PKCS#7 structure embeds: the bytes that were signed,
/// as they stand in the structure.
pub uninterp spec fn container_content(container: openssl::pkcs7::Pkcs7) -> Seq<u8>;

/// The content embedded in the PKCS#7 structure that `der` encodes.
pub uninterp spec fn embedded_content(der: Seq<u8>) -> Seq<u8>;

/// `openssl::pkcs7::Pkcs7::from_der`: reads a DER-encoded PKCS#7
/// structure. The contract does not say on which bytes a structure is read.
/// It claims that the structure which is read depends on the bytes alone as
/// far as its content goes: that content gets the name `embedded_content`.
pub assume_specification[ openssl::pkcs7::Pkcs7::from_der ](der: &[u8]) -> (parsed: Result<
    openssl::pkcs7::Pkcs7,
    openssl::error::ErrorStack,
>)
    ensures
        parsed matches Ok(container) ==> container_content(container) == embedded_content(der@),
;

/// Calls `openssl::pkcs7::Pkcs7::verify` on `container` and hands back the
/// content that the call wrote out. The call is given no extra certificates
/// (an empty stack from `openssl::stack::Stack::new`), an empty trust store
/// (from `openssl::x509::store::X509StoreBuilder`), no detached data, and
/// the flags that `mode` stands for: `NOVERIFY` for `StructuralOnly`, which
/// tells OpenSSL not to verify the signer's certificate. The contract does
/// not say when the call succeeds: what OpenSSL accepts depends on how it
/// was built and configured. It claims that, where the call succeeds, what
/// it wrote out is the content that the structure embeds.
#[verifier::external_body]
fn signed_content(container: &openssl::pkcs7::Pkcs7, mode: VerificationMode) -> (content: Result<
    Vec<u8>,
    openssl::error::ErrorStack,
>)
    ensures
        content matches Ok(bytes) ==> bytes@ == container_content(*container),
{
    let flags = match mode {
        VerificationMode::StructuralOnly => openssl::pkcs7::Pkcs7Flags::NOVERIFY,
    };
    let certs = openssl::stack::Stack::new()?;
    let store = openssl::x509::store::X509StoreBuilder::new()?.build();
    let mut content = Vec::new();
    container.verify(&certs, &store, None, Some(&mut content), flags)?;
    Ok(content)
}

/// What the decoder makes of the outcome of the content's recovery: the
/// content as it is, or `MalformedContainer` for any failure.
pub fn envelope_outcome(recovered: Result<Vec<u8>, openssl::error::ErrorStack>) -> (decoded: Result<
    Vec<u8>,
    EnvelopeError,
>)
    ensures
        match recovered {
            Ok(content) => decoded == Ok::<Vec<u8>, EnvelopeError>(content),
            Err(_) => decoded == Err::<Vec<u8>, EnvelopeError>(EnvelopeError::MalformedContainer),
        },
{
    match recovered {
        Ok(content) => Ok(content),
        Err(_) => Err(EnvelopeError::MalformedContainer),
    }
}

/// Unwraps a signed-data container and returns the content it embeds.
///
/// Whether the bytes are taken for a container, and whether its content is
/// recovered, is for OpenSSL to say; every failure of either step comes
/// back as `MalformedContainer`. Content that is recovered is the content
/// embedded in the structure that the bytes encode, and no other.
pub fn decode(raw: &[u8], mode: VerificationMode) -> (decoded: Result<Vec<u8>, EnvelopeError>)
    ensures
        decoded matches Ok(content) ==> content@ == embedded_content(raw@),
        decoded matches Err(error) ==> error == EnvelopeError::MalformedContainer,
{
    match openssl::pkcs7::Pkcs7::from_der(raw) {
        Err(_) => Err(EnvelopeError::MalformedContainer),
        Ok(container) => envelope_outcome(signed_content(&container, mode)),
    }
}

} // verus!
