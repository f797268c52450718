//! Serializers for the binary HWP format and the zipped-XML HWPX format.

pub mod byte_writer;
pub mod header;
pub mod hwpx;
pub mod record_writer;
pub mod sidecar_laws;
pub mod track_sidecar;
pub mod sidecar_scan;
pub mod sidecar_roundtrip;
