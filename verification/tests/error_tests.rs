use keyboard_overlay::error::{ErrorCategory, XkbCreationError};
use std::io::{Error, ErrorKind};

#[test]
fn only_an_unresolved_symbol_is_not_fatal() {
    assert!(ErrorCategory::ResourceAcquisition.is_fatal());
    assert!(ErrorCategory::LayoutCompilation.is_fatal());
    assert!(ErrorCategory::StreamCorruption.is_fatal());
    assert!(ErrorCategory::ChannelPeerGone.is_fatal());
    assert!(!ErrorCategory::UnresolvedSymbol.is_fatal());
}

#[test]
fn an_unreadable_layout_is_a_missing_resource() {
    let open = XkbCreationError::OpenMappings(Error::new(ErrorKind::NotFound, "no such file"));
    assert_eq!(open.category(), ErrorCategory::ResourceAcquisition);
    let read = XkbCreationError::ReadMappings(Error::new(ErrorKind::UnexpectedEof, "short"));
    assert_eq!(read.category(), ErrorCategory::ResourceAcquisition);
}

#[test]
fn a_failing_layout_engine_is_a_compilation_failure() {
    assert_eq!(XkbCreationError::ContextCreationFailed.category(), ErrorCategory::LayoutCompilation);
    assert_eq!(XkbCreationError::KeymapCreationFailed.category(), ErrorCategory::LayoutCompilation);
    assert_eq!(XkbCreationError::StateCreationFailed.category(), ErrorCategory::LayoutCompilation);
}

#[test]
fn creation_errors_keep_the_cause() {
    let open = XkbCreationError::OpenMappings(Error::new(ErrorKind::NotFound, "no such file"));
    let text = format!("{:?}", open);
    assert!(text.starts_with("OpenMappings("));
    assert!(text.contains("no such file"));
    assert_eq!(format!("{:?}", XkbCreationError::StateCreationFailed), "StateCreationFailed");
}
