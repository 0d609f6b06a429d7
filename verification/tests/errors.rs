use porg::PipelineError;

#[test]
fn messages_name_each_failure() {
    assert_eq!(PipelineError::InvalidLocator.message(), "invalid locator");
    assert_eq!(PipelineError::UnsupportedHost.message(), "unsupported host");
    assert_eq!(PipelineError::FetchFailed.message(), "fetch failed");
    assert_eq!(PipelineError::MetadataNotFound.message(), "metadata not found");
    assert_eq!(PipelineError::MalformedMetadata.message(), "malformed metadata");
    assert_eq!(PipelineError::CacheUnavailable.message(), "cache unavailable");
    assert_eq!(PipelineError::LinkFailed.message(), "link failed");
}

#[test]
fn validation_errors_are_distinct() {
    assert_ne!(PipelineError::InvalidLocator, PipelineError::UnsupportedHost);
    assert_ne!(
        PipelineError::MetadataNotFound,
        PipelineError::MalformedMetadata
    );
}
