//! The failures the overlay knows, and how grave each is.

use vstd::prelude::*;

verus! {

/// `std::io::Error`, carried through as the cause of a failure to open or
/// read the layout resource. Nothing is claimed of what it holds.
#[verifier::external_type_specification]
#[verifier::external_body]
pub struct ExIoError(std::io::Error);

/// The kinds of failure. All but an unresolved symbol end the process.
#[derive(Clone, Copy, Debug, PartialEq, Eq, Structural)]
pub enum ErrorCategory {
    /// The device or the layout resource cannot be opened or read.
    ResourceAcquisition,
    /// The layout does not parse, or the layout engine cannot be set up.
    LayoutCompilation,
    /// The device stream ends within a record.
    StreamCorruption,
    /// Nobody is left to receive the key events.
    ChannelPeerGone,
    /// A key has no symbol that can be shown.
    UnresolvedSymbol,
}

impl ErrorCategory {
    /// Whether a failure of this kind ends the process.
    pub open spec fn fatal(self) -> bool {
        !(self is UnresolvedSymbol)
    }

    /// Whether a failure of this kind ends the process.
    pub fn is_fatal(&self) -> (yes: bool)
        ensures
            yes == self.fatal(),
    {
        match self {
            ErrorCategory::UnresolvedSymbol => false,
            _ => true,
        }
    }
}

/// Why the layout engine could not be set up.
#[derive(Debug)]
pub enum XkbCreationError {
    ContextCreationFailed,
    OpenMappings(std::io::Error),
    ReadMappings(std::io::Error),
    KeymapCreationFailed,
    StateCreationFailed,
}

impl XkbCreationError {
    /// A layout resource that cannot be opened or read is a failure to get a
    /// resource; every other failure here is one of compiling the layout.
    pub open spec fn category_of(self) -> ErrorCategory {
        match self {
            XkbCreationError::OpenMappings(_) => ErrorCategory::ResourceAcquisition,
            XkbCreationError::ReadMappings(_) => ErrorCategory::ResourceAcquisition,
            _ => ErrorCategory::LayoutCompilation,
        }
    }

    /// The kind of this failure.
    pub fn category(&self) -> (category: ErrorCategory)
        ensures
            category == self.category_of(),
    {
        match self {
            XkbCreationError::OpenMappings(_) => ErrorCategory::ResourceAcquisition,
            XkbCreationError::ReadMappings(_) => ErrorCategory::ResourceAcquisition,
            _ => ErrorCategory::LayoutCompilation,
        }
    }
}

/// The device stream broke off within a record.
#[derive(Clone, Copy, Debug, PartialEq, Eq, Structural)]
pub struct TruncatedRecord {
    /// The number of bytes after the last whole record.
    pub stray_bytes: usize,
}

} // verus!
