//! The buffer import gate: decides whether a client's cross-process buffer
//! description can be composited, and whether it must wait on a fence.
use vstd::prelude::*;
use crate::space::BufferRef;

verus! {

/// Most planes a multi-planar buffer layout carries.
pub const MAX_PLANES: usize = 4;

/// One memory plane of a client buffer.
#[derive(Clone, Copy, Debug, PartialEq, Eq)]
pub struct Plane {
    pub offset: u32,
    pub stride: u32,
}

/// A pixel format and memory layout modifier pair.
#[derive(Clone, Copy, Debug, PartialEq, Eq, Structural)]
pub struct Format {
    pub code: u32,
    pub modifier: u64,
}

/// An opaque cross-process buffer description as a client submits it.
#[derive(Clone, Debug, PartialEq, Eq)]
pub struct BufferDesc {
    pub format: Format,
    /// The GPU device whose memory holds the buffer.
    pub device: u64,
    pub width: i32,
    pub height: i32,
    pub planes: Vec<Plane>,
    /// An explicit synchronization fence to wait on before use.
    pub fence: Option<u64>,
}

/// What the renderer can consume, negotiated once at startup.
#[derive(Clone, Debug, PartialEq, Eq)]
pub struct FormatCaps {
    pub formats: Vec<Format>,
    /// The device that owns the rendering context.
    pub device: u64,
    /// Other devices with a zero-copy path to the rendering device.
    pub peers: Vec<u64>,
}

#[derive(Clone, Copy, Debug, PartialEq, Eq, Structural)]
pub enum ImportError {
    UnsupportedFormat,
    DeviceMismatch,
    Invalid,
}

/// The description is malformed: no plane or too many, an empty size, or a
/// plane with a zero stride.
pub open spec fn malformed(desc: BufferDesc) -> bool {
    ||| desc.planes@.len() == 0
    ||| desc.planes@.len() > MAX_PLANES
    ||| desc.width <= 0
    ||| desc.height <= 0
    ||| exists|i: int| 0 <= i < desc.planes@.len() && (#[trigger] desc.planes@[i]).stride == 0
}

pub open spec fn supported(caps: FormatCaps, f: Format) -> bool {
    caps.formats@.contains(f)
}

pub open spec fn reachable(caps: FormatCaps, device: u64) -> bool {
    device == caps.device || caps.peers@.contains(device)
}

/// The outcome of importing `desc` under the name `id`.
pub open spec fn import_spec(desc: BufferDesc, caps: FormatCaps, id: u64) -> Result<BufferRef, ImportError> {
    if malformed(desc) {
        Err(ImportError::Invalid)
    } else if !supported(caps, desc.format) {
        Err(ImportError::UnsupportedFormat)
    } else if !reachable(caps, desc.device) {
        Err(ImportError::DeviceMismatch)
    } else {
        Ok(BufferRef { id, w: desc.width, h: desc.height })
    }
}

fn has_format(v: &Vec<Format>, f: Format) -> (b: bool)
    ensures
        b == v@.contains(f),
{
    let mut i: usize = 0;
    while i < v.len()
        invariant
            i <= v@.len(),
            forall|j: int| 0 <= j < i ==> v@[j] != f,
        decreases v@.len() - i,
    {
        if v[i] == f {
            return true;
        }
        i = i + 1;
    }
    false
}

fn has_device(v: &Vec<u64>, d: u64) -> (b: bool)
    ensures
        b == v@.contains(d),
{
    let mut i: usize = 0;
    while i < v.len()
        invariant
            i <= v@.len(),
            forall|j: int| 0 <= j < i ==> v@[j] != d,
        decreases v@.len() - i,
    {
        if v[i] == d {
            return true;
        }
        i = i + 1;
    }
    false
}

/// Checks the shape of a description; see `malformed`.
pub fn is_malformed(desc: &BufferDesc) -> (b: bool)
    ensures
        b == malformed(*desc),
{
    if desc.planes.len() == 0 || desc.planes.len() > MAX_PLANES || desc.width <= 0 || desc.height <= 0 {
        return true;
    }
    let mut i: usize = 0;
    while i < desc.planes.len()
        invariant
            i <= desc.planes@.len(),
            forall|j: int| 0 <= j < i ==> (#[trigger] desc.planes@[j]).stride != 0,
        decreases desc.planes@.len() - i,
    {
        if desc.planes[i].stride == 0 {
            return true;
        }
        i = i + 1;
    }
    false
}

impl FormatCaps {
    pub fn new(formats: Vec<Format>, device: u64, peers: Vec<u64>) -> (c: FormatCaps)
        ensures
            c == (FormatCaps { formats, device, peers }),
    {
        FormatCaps { formats, device, peers }
    }

    /// Turns a description into a renderable buffer named `id`, or says why
    /// it cannot be used. A malformed description is `Invalid`; an unknown
    /// format or modifier is `UnsupportedFormat`; memory of a device with no
    /// zero-copy path to the renderer is `DeviceMismatch`.
    pub fn import(&self, desc: &BufferDesc, id: u64) -> (r: Result<BufferRef, ImportError>)
        ensures
            r == import_spec(*desc, *self, id),
    {
        if is_malformed(desc) {
            Err(ImportError::Invalid)
        } else if !has_format(&self.formats, desc.format) {
            Err(ImportError::UnsupportedFormat)
        } else if !(desc.device == self.device || has_device(&self.peers, desc.device)) {
            Err(ImportError::DeviceMismatch)
        } else {
            Ok(BufferRef { id, w: desc.width, h: desc.height })
        }
    }
}

/// The fence that a buffer must wait on before it may become current.
pub fn probe_sync(desc: &BufferDesc) -> (r: Option<u64>)
    ensures
        r == desc.fence,
{
    desc.fence
}

} // verus!
