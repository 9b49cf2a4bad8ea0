//! Errors of the compositor integration.

use vstd::prelude::*;
use crate::ids::ObjectId;

verus! {

#[verifier::external_type_specification]
#[verifier::external_body]
pub struct ExIoError(std::io::Error);

/// Why a pixel format could not be converted.
#[derive(Debug)]
pub enum FormatConversionError {
    UnsupportedSourceFormat(String),
    UnsupportedTargetFormat(String),
    PipelineCreationFailed,
    GpuConversionUnavailable,
}

/// Why an operation on a surface failed.
#[derive(Debug)]
pub enum SurfaceError {
    SurfaceNotFound,
    InvalidState,
    BufferImportFailed(String),
}

/// Why the resource manager refused a request.
#[derive(Debug)]
pub enum ResourceError {
    CacheFull,
    MemoryPressure,
    CleanupFailed(String),
}

/// Errors of the renderer as a whole.
#[derive(Debug)]
pub enum BlitzSmithayError {
    Wgpu(String),
    FormatConversion(FormatConversionError),
    ResourceManagerLocked,
    SurfaceError(SurfaceError),
    DmaBufImport(String),
    SurfaceNotFound(ObjectId),
    CoordinateMapping(String),
    AnyRender(String),
    MemoryAllocation(String),
    Io(std::io::Error),
    WaylandDisplay(String),
    HalBridgeInitialization,
    GbmDevice(String),
    EventQueueLocked,
}

} // verus!
