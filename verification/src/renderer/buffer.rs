//! Device buffers: how their contents are supplied and how large they are.

use vstd::prelude::*;

verus! {

/// The kinds of resources a driver creates.
#[derive(Clone, Copy, Debug, PartialEq, Eq, Structural)]
pub enum ResourceType {
    DeviceBuffer,
    Texture,
    RenderTarget,
    Shader,
    Pipeline,
    FrameBuffer,
}

/// Data handed to the driver, by its size in bytes.
pub trait Payload {
    fn size(&self) -> usize;
}

impl<T> Payload for Vec<T> {
    /// The bytes the elements take; a size that does not fit `usize` (which
    /// no allocated vector has) is capped at `usize::MAX`.
    fn size(&self) -> (r: usize)
        ensures
            r == vstd::math::min((vstd::layout::size_of::<T>() * self@.len()) as int, usize::MAX as int),
    {
        match core::mem::size_of::<T>().checked_mul(self.len()) {
            Some(n) => n,
            None => usize::MAX,
        }
    }
}

/// A single value handed to the driver as a payload.
pub struct GenPayload<T> {
    t: T,
}

impl<T> GenPayload<T> {
    pub closed spec fn value(&self) -> T {
        self.t
    }

    pub fn from(t: T) -> (r: Self)
        ensures
            r.value() == t,
    {
        Self { t }
    }
}

impl<T> Payload for GenPayload<T> {
    fn size(&self) -> (r: usize)
        ensures
            r == vstd::layout::size_of::<T>(),
    {
        core::mem::size_of::<T>()
    }
}

/// How a buffer is used: filled once with the given bytes, or of the given
/// size and rewritten often (dynamic) or every frame (streamed).
pub enum Usage {
    Static(Vec<u8>),
    Dynamic(usize),
    Streamed(usize),
}

impl Usage {
    /// A dynamic buffer for `len` values of type `T`.
    pub fn new_dynamic<T>(len: usize) -> (r: Usage)
        requires
            len * vstd::layout::size_of::<T>() <= usize::MAX,
        ensures
            r matches Usage::Dynamic(s) && s == len * vstd::layout::size_of::<T>(),
    {
        Self::Dynamic(len * core::mem::size_of::<T>())
    }

    /// A buffer for `len` values of type `T`; it is created dynamic, like
    /// those of `new_dynamic`.
    pub fn new_streamed<T>(len: usize) -> (r: Usage)
        requires
            len * vstd::layout::size_of::<T>() <= usize::MAX,
        ensures
            r matches Usage::Dynamic(s) && s == len * vstd::layout::size_of::<T>(),
    {
        Self::Dynamic(len * core::mem::size_of::<T>())
    }

    pub open spec fn spec_size(&self) -> usize {
        match self {
            Usage::Static(b) => b@.len() as usize,
            Usage::Dynamic(s) => *s,
            Usage::Streamed(s) => *s,
        }
    }

    /// The size of the buffer in bytes.
    pub fn size(&self) -> (r: usize)
        ensures
            r == self.spec_size(),
    {
        match self {
            Usage::Static(b) => b.len(),
            Usage::Dynamic(s) => *s,
            Usage::Streamed(s) => *s,
        }
    }
}

/// A device buffer: what its contents are for, and how it is used.
pub enum DeviceBufferDesc {
    Vertex(Usage),
    Index(Usage),
    Pixel(Usage),
}

impl DeviceBufferDesc {
    pub open spec fn usage(&self) -> Usage {
        match self {
            DeviceBufferDesc::Vertex(u) => *u,
            DeviceBufferDesc::Index(u) => *u,
            DeviceBufferDesc::Pixel(u) => *u,
        }
    }

    /// The description a driver keeps once the buffer is created: the same
    /// kind and size, with the bytes of a static buffer zeroed.
    pub fn erase_data(&self) -> (r: DeviceBufferDesc)
        ensures
            r.usage().spec_size() == self.usage().spec_size(),
            (r is Vertex) == (self is Vertex),
            (r is Index) == (self is Index),
            (r is Pixel) == (self is Pixel),
            r.usage() matches Usage::Static(b) ==> self.usage() is Static
                && forall|i: int| 0 <= i < b@.len() ==> b@[i] == 0u8,
            r.usage() matches Usage::Dynamic(s) ==> self.usage() == Usage::Dynamic(s),
            r.usage() matches Usage::Streamed(s) ==> self.usage() == Usage::Streamed(s),
    {
        let u = match self {
            Self::Vertex(u) | Self::Index(u) | Self::Pixel(u) => u,
        };
        let usage = match u {
            Usage::Static(b) => {
                let n = b.len();
                let mut zeros: Vec<u8> = Vec::new();
                let mut i: usize = 0;
                while i < n
                    invariant
                        i <= n,
                        zeros@.len() == i,
                        forall|j: int| 0 <= j < i ==> zeros@[j] == 0u8,
                    decreases n - i,
                {
                    zeros.push(0u8);
                    i += 1;
                }
                Usage::Static(zeros)
            },
            Usage::Dynamic(s) => Usage::Dynamic(*s),
            Usage::Streamed(s) => Usage::Streamed(*s),
        };
        match self {
            Self::Vertex(_) => Self::Vertex(usage),
            Self::Index(_) => Self::Index(usage),
            Self::Pixel(_) => Self::Pixel(usage),
        }
    }

    /// The size of the buffer in bytes.
    pub fn size(&self) -> (r: usize)
        ensures
            r == self.usage().spec_size(),
    {
        match self {
            Self::Vertex(u) | Self::Index(u) | Self::Pixel(u) => u.size(),
        }
    }
}

} // verus!
