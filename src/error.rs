use vstd::prelude::*;

verus! {

/// Every way in which a stage of the pipeline can fail or be told to stop.
#[derive(Clone, Copy, Debug, PartialEq, Eq, Structural)]
pub enum PipeError {
    /// No target path was given and none can be read off the URL.
    CannotInferTarget,
    /// The target path exists and existing targets are not ignored.
    TargetExists,
    /// The download was started once already.
    AlreadyStarted,
    /// A `.link` resource did not hold an http(s) URL.
    BadLinkUrl,
    /// The resource has a length of zero.
    EmptyBody,
    /// The server answered with a status the request does not allow.
    UnexpectedStatus,
    /// The server answered a range request with the whole body.
    PartialContentUnsupported,
    /// A response carried no usable `Content-Length`.
    ContentLengthMissing,
    /// A response's `Content-Length` differs from the requested range.
    ContentLengthMismatch,
    /// The URL ends in no known compression suffix.
    UnknownCompression,
    /// Reading a response body failed or ended early.
    TransientRead,
    /// Opening a connection failed.
    TransientConnect,
    /// The next stage is gone.
    DownstreamClosed,
    /// The previous stage is gone.
    UpstreamClosed,
    /// The codec reported an error.
    DecoderFailure,
    /// Unpacking the archive failed.
    ExtractFailure,
    /// Writing the output file failed.
    WriteFailure,
    /// A stop was requested.
    Stopped,
    /// The download is paused.
    Paused,
}

/// Whether an error kind allows another attempt, provided ranges are in use.
pub open spec fn is_transient(e: PipeError) -> bool {
    e == PipeError::TransientRead || e == PipeError::TransientConnect
}

/// The description of each error kind.
pub open spec fn error_text(e: PipeError) -> Seq<char> {
    match e {
        PipeError::CannotInferTarget => "Cannot infer target path from url"@,
        PipeError::TargetExists => "Target path already exists"@,
        PipeError::AlreadyStarted => "Download already started"@,
        PipeError::BadLinkUrl => "Wrong url, should start from http:// or https://"@,
        PipeError::EmptyBody => "Content-Length is 0, empty files not supported"@,
        PipeError::UnexpectedStatus => "Unexpected status code"@,
        PipeError::PartialContentUnsupported => "Seems like server does not support partial content"@,
        PipeError::ContentLengthMissing => "Content-Length header not found"@,
        PipeError::ContentLengthMismatch => "Unexpected content length"@,
        PipeError::UnknownCompression => "Unknown file type"@,
        PipeError::TransientRead => "Unexpected end of file"@,
        PipeError::TransientConnect => "Connection failed"@,
        PipeError::DownstreamClosed => "Error while sending chunk"@,
        PipeError::UpstreamClosed => "Receive error"@,
        PipeError::DecoderFailure => "Error while reading from decoder"@,
        PipeError::ExtractFailure => "Error while unpacking"@,
        PipeError::WriteFailure => "Error while writing"@,
        PipeError::Stopped => "Stop requested"@,
        PipeError::Paused => "Download paused"@,
    }
}

impl PipeError {
    /// Whether this kind may be retried when range requests are in use.
    pub fn is_retryable(&self) -> (r: bool)
        ensures
            r == is_transient(*self),
    {
        match self {
            PipeError::TransientRead | PipeError::TransientConnect => true,
            _ => false,
        }
    }

    /// A human readable description of the error.
    pub fn message(&self) -> (r: &'static str)
        ensures
            r@ == error_text(*self),
    {
        match self {
            PipeError::CannotInferTarget => "Cannot infer target path from url",
            PipeError::TargetExists => "Target path already exists",
            PipeError::AlreadyStarted => "Download already started",
            PipeError::BadLinkUrl => "Wrong url, should start from http:// or https://",
            PipeError::EmptyBody => "Content-Length is 0, empty files not supported",
            PipeError::UnexpectedStatus => "Unexpected status code",
            PipeError::PartialContentUnsupported => "Seems like server does not support partial content",
            PipeError::ContentLengthMissing => "Content-Length header not found",
            PipeError::ContentLengthMismatch => "Unexpected content length",
            PipeError::UnknownCompression => "Unknown file type",
            PipeError::TransientRead => "Unexpected end of file",
            PipeError::TransientConnect => "Connection failed",
            PipeError::DownstreamClosed => "Error while sending chunk",
            PipeError::UpstreamClosed => "Receive error",
            PipeError::DecoderFailure => "Error while reading from decoder",
            PipeError::ExtractFailure => "Error while unpacking",
            PipeError::WriteFailure => "Error while writing",
            PipeError::Stopped => "Stop requested",
            PipeError::Paused => "Download paused",
        }
    }
}

} // verus!
