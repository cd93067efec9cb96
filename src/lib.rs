//! Parsing of QCOW (version 1, 2 and 3) disk images and random-access reads of the virtual
//! disk they hold.
pub mod bytes;
pub mod decompress;
pub mod error;
pub mod features;
pub mod header;
pub mod header_ext;
pub mod laws;
pub mod levels;
pub mod qcow;
pub mod reader;
pub mod snapshot;
pub mod v1;

pub use error::{Error, ParseError};
pub use features::{reverse, AutoClearFeatures, CompatibleFeatures, IncompatibleFeatures};
pub use header::{CompressionType, EncryptionMethod, QcowHeader, Version3Header};
pub use header_ext::{FeatureKind, FeatureName, HeaderExt, HeaderExtKind};
pub use levels::{L1Entry, L2Entry};
pub use qcow::{load_from_memory, DynamicQcow, Qcow1, Qcow2};
pub use reader::{Reader, SeekFrom};
pub use snapshot::Snapshot;
pub use v1::Qcow1Header;
