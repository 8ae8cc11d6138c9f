//! The error taxonomy of the registry, mirroring the Docker Distribution
//! error codes, together with the JSON-facing detail record (an error code
//! and a human-readable message) and the HTTP status each kind maps to.

use vstd::prelude::*;

verus! {

/// The error kinds that registry operations surface.
#[derive(Debug, Clone, Copy, PartialEq, Eq, Structural)]
pub enum RegistryError {
    BlobUnknown,
    BlobUploadInvalid,
    BlobUploadUnknown,
    DigestInvalid,
    ManifestBlobUnknown,
    ManifestInvalid,
    ManifestUnknown,
    ManifestUnverified,
    NameInvalid,
    NameUnknown,
    PaginationNumberInvalid,
    RangeInvalid,
    SizeInvalid,
    TagInvalid,
    Unauthorized,
    Denied,
    Unsupported,
}

/// The wire-format error code of an error kind.
pub open spec fn code_chars(err: RegistryError) -> Seq<char> {
    match err {
        RegistryError::BlobUnknown => "BLOB_UNKNOWN"@,
        RegistryError::BlobUploadInvalid => "BLOB_UPLOAD_INVALID"@,
        RegistryError::BlobUploadUnknown => "BLOB_UPLOAD_UNKNOWN"@,
        RegistryError::DigestInvalid => "DIGEST_INVALID"@,
        RegistryError::ManifestBlobUnknown => "MANIFEST_BLOB_UNKNOWN"@,
        RegistryError::ManifestInvalid => "MANIFEST_INVALID"@,
        RegistryError::ManifestUnknown => "MANIFEST_UNKNOWN"@,
        RegistryError::ManifestUnverified => "MANIFEST_UNVERIFIED"@,
        RegistryError::NameInvalid => "NAME_INVALID"@,
        RegistryError::NameUnknown => "NAME_UNKNOWN"@,
        RegistryError::PaginationNumberInvalid => "PAGINATION_NUMBER_INVALID"@,
        RegistryError::RangeInvalid => "RANGE_INVALID"@,
        RegistryError::SizeInvalid => "SIZE_INVALID"@,
        RegistryError::TagInvalid => "TAG_INVALID"@,
        RegistryError::Unauthorized => "UNAUTHORIZED"@,
        RegistryError::Denied => "DENIED"@,
        RegistryError::Unsupported => "UNSUPPORTED"@,
    }
}

/// The human-readable message of an error kind.
pub open spec fn message_chars(err: RegistryError) -> Seq<char> {
    match err {
        RegistryError::BlobUnknown => "blob unknown to registry"@,
        RegistryError::BlobUploadInvalid => "blob upload invalid"@,
        RegistryError::BlobUploadUnknown => "blob upload unknown to registry"@,
        RegistryError::DigestInvalid => "provided digest did not match uploaded content"@,
        RegistryError::ManifestBlobUnknown => "blob unknown to registry"@,
        RegistryError::ManifestInvalid => "manifest invalid"@,
        RegistryError::ManifestUnknown => "manifest unknown"@,
        RegistryError::ManifestUnverified => "manifest failed signature verification"@,
        RegistryError::NameInvalid => "invalid repository name"@,
        RegistryError::NameUnknown => "repository name not known to registry"@,
        RegistryError::PaginationNumberInvalid => "invalid number of results requested"@,
        RegistryError::RangeInvalid => "provided range was invalid"@,
        RegistryError::SizeInvalid => "provided length did not match content length"@,
        RegistryError::TagInvalid => "manifest tag did not match URI"@,
        RegistryError::Unauthorized => "authentication required"@,
        RegistryError::Denied => "requested access to the resource is denied"@,
        RegistryError::Unsupported => "the operation is unsupported"@,
    }
}

/// The HTTP status an error kind maps to at the boundary.
pub open spec fn status_of(err: RegistryError) -> u16 {
    match err {
        RegistryError::BlobUnknown => 404u16,
        RegistryError::BlobUploadInvalid => 400u16,
        RegistryError::BlobUploadUnknown => 404u16,
        RegistryError::DigestInvalid => 400u16,
        RegistryError::ManifestBlobUnknown => 404u16,
        RegistryError::ManifestInvalid => 400u16,
        RegistryError::ManifestUnknown => 404u16,
        RegistryError::ManifestUnverified => 400u16,
        RegistryError::NameInvalid => 400u16,
        RegistryError::NameUnknown => 404u16,
        RegistryError::PaginationNumberInvalid => 400u16,
        RegistryError::RangeInvalid => 400u16,
        RegistryError::SizeInvalid => 400u16,
        RegistryError::TagInvalid => 400u16,
        RegistryError::Unauthorized => 401u16,
        RegistryError::Denied => 403u16,
        RegistryError::Unsupported => 405u16,
    }
}

impl RegistryError {
    /// The HTTP status of this error kind.
    pub fn http_status(&self) -> (status: u16)
        ensures
            status == status_of(*self),
    {
        match self {
            RegistryError::BlobUnknown => 404,
            RegistryError::BlobUploadInvalid => 400,
            RegistryError::BlobUploadUnknown => 404,
            RegistryError::DigestInvalid => 400,
            RegistryError::ManifestBlobUnknown => 404,
            RegistryError::ManifestInvalid => 400,
            RegistryError::ManifestUnknown => 404,
            RegistryError::ManifestUnverified => 400,
            RegistryError::NameInvalid => 400,
            RegistryError::NameUnknown => 404,
            RegistryError::PaginationNumberInvalid => 400,
            RegistryError::RangeInvalid => 400,
            RegistryError::SizeInvalid => 400,
            RegistryError::TagInvalid => 400,
            RegistryError::Unauthorized => 401,
            RegistryError::Denied => 403,
            RegistryError::Unsupported => 405,
        }
    }
}

/// The details of a [`RegistryError`] as they appear in an error response
/// body: the error code and its message.
#[derive(Debug)]
pub struct RegistryErrorDetails {
    pub code: String,
    pub message: String,
}

impl RegistryErrorDetails {
    /// The detail record of an error kind: its code and message.
    pub fn from(err: RegistryError) -> (details: RegistryErrorDetails)
        ensures
            details.code@ == code_chars(err),
            details.message@ == message_chars(err),
    {
        match err {
            RegistryError::BlobUnknown => RegistryErrorDetails {
                code: String::from_str("BLOB_UNKNOWN"),
                message: String::from_str("blob unknown to registry"),
            },
            RegistryError::BlobUploadInvalid => RegistryErrorDetails {
                code: String::from_str("BLOB_UPLOAD_INVALID"),
                message: String::from_str("blob upload invalid"),
            },
            RegistryError::BlobUploadUnknown => RegistryErrorDetails {
                code: String::from_str("BLOB_UPLOAD_UNKNOWN"),
                message: String::from_str("blob upload unknown to registry"),
            },
            RegistryError::DigestInvalid => RegistryErrorDetails {
                code: String::from_str("DIGEST_INVALID"),
                message: String::from_str("provided digest did not match uploaded content"),
            },
            RegistryError::ManifestBlobUnknown => RegistryErrorDetails {
                code: String::from_str("MANIFEST_BLOB_UNKNOWN"),
                message: String::from_str("blob unknown to registry"),
            },
            RegistryError::ManifestInvalid => RegistryErrorDetails {
                code: String::from_str("MANIFEST_INVALID"),
                message: String::from_str("manifest invalid"),
            },
            RegistryError::ManifestUnknown => RegistryErrorDetails {
                code: String::from_str("MANIFEST_UNKNOWN"),
                message: String::from_str("manifest unknown"),
            },
            RegistryError::ManifestUnverified => RegistryErrorDetails {
                code: String::from_str("MANIFEST_UNVERIFIED"),
                message: String::from_str("manifest failed signature verification"),
            },
            RegistryError::NameInvalid => RegistryErrorDetails {
                code: String::from_str("NAME_INVALID"),
                message: String::from_str("invalid repository name"),
            },
            RegistryError::NameUnknown => RegistryErrorDetails {
                code: String::from_str("NAME_UNKNOWN"),
                message: String::from_str("repository name not known to registry"),
            },
            RegistryError::PaginationNumberInvalid => RegistryErrorDetails {
                code: String::from_str("PAGINATION_NUMBER_INVALID"),
                message: String::from_str("invalid number of results requested"),
            },
            RegistryError::RangeInvalid => RegistryErrorDetails {
                code: String::from_str("RANGE_INVALID"),
                message: String::from_str("provided range was invalid"),
            },
            RegistryError::SizeInvalid => RegistryErrorDetails {
                code: String::from_str("SIZE_INVALID"),
                message: String::from_str("provided length did not match content length"),
            },
            RegistryError::TagInvalid => RegistryErrorDetails {
                code: String::from_str("TAG_INVALID"),
                message: String::from_str("manifest tag did not match URI"),
            },
            RegistryError::Unauthorized => RegistryErrorDetails {
                code: String::from_str("UNAUTHORIZED"),
                message: String::from_str("authentication required"),
            },
            RegistryError::Denied => RegistryErrorDetails {
                code: String::from_str("DENIED"),
                message: String::from_str("requested access to the resource is denied"),
            },
            RegistryError::Unsupported => RegistryErrorDetails {
                code: String::from_str("UNSUPPORTED"),
                message: String::from_str("the operation is unsupported"),
            },
        }
    }
}

} // verus!
