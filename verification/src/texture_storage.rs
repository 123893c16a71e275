//! Texture storage whose rows start on 16-byte boundaries.
use vstd::prelude::*;

verus! {

/// The row stride of a texture `width` pixels wide: the width rounded up to
/// a multiple of 16 pixels.
pub open spec fn row_stride_spec(width: int) -> int {
    (width + 15) / 16 * 16
}

/// Rounds a texture width up to a multiple of 16 pixels, so that every row
/// of a texture stored with this stride starts where the first one does
/// modulo 16. The rounded width must fit in `u16`.
pub fn row_stride(width: u16) -> (stride: u16)
    requires
        width as int + 15 <= u16::MAX,
    ensures
        stride == row_stride_spec(width as int),
        stride % 16 == 0,
        width <= stride < width + 16,
{
    let sum = width + 15;
    let stride = sum & !15u16;
    assert(sum & !15u16 == sum / 16 * 16) by (bit_vector);
    stride
}

/// `<*const T>::align_offset(16)` applied to the start of the buffer of
/// `storage`: how many elements past that start the first 16-byte boundary
/// lies. The answer depends on where the allocator placed the buffer, and std
/// documents that it may be `usize::MAX`; nothing is stated of it.
#[verifier::external_body]
fn boundary_offset<T>(storage: &Vec<T>) -> usize {
    storage.as_ptr().align_offset(16)
}

/// Initialized pixels of type `T` that begin at a 16-byte boundary of an
/// ordinary allocation, `N` pixels per 16 bytes. Up to `N - 1` default values
/// before the boundary pad the allocation.
pub struct Plane<T, const N: usize> {
    storage: Vec<T>,
    start: usize,
}

/// Colour planes: eight RGB565 pixels per 16 bytes.
pub type Colors = Plane<u16, 8>;

/// Coverage planes: sixteen 8-bit alpha values per 16 bytes.
pub type Alpha = Plane<u8, 16>;

impl<T, const N: usize> View for Plane<T, N> {
    type V = Seq<T>;

    /// The exposed pixels, after the padding.
    closed spec fn view(&self) -> Seq<T> {
        self.storage@.subrange(self.start as int, self.storage@.len() as int)
    }
}

impl<T, const N: usize> Plane<T, N> {
    /// The storage holds its padding and the padding is shorter than `N`.
    pub closed spec fn wf(&self) -> bool {
        &&& self.start <= self.storage@.len()
        &&& self.start < N
    }

    /// How many padding values precede the exposed pixels.
    pub closed spec fn padding(&self) -> nat {
        self.start as nat
    }

    /// The exposed pixels.
    pub fn as_slice(&self) -> (pixels: &[T])
        requires
            self.wf(),
        ensures
            pixels@ == self@,
    {
        self.storage.as_slice().split_at(self.start).1
    }
}

impl<T: Default, const N: usize> Plane<T, N> {
    /// Fills the empty buffer `storage` with `start` default values, then
    /// with `pixel(0)`, ..., `pixel(len - 1)`. Refuses, with `None`, a
    /// `start` that is not shorter than `N`, since no 16-byte boundary lies
    /// that far from a buffer's start.
    pub fn place<F: Fn(usize) -> T>(storage: Vec<T>, start: usize, len: usize, pixel: F) -> (plane:
        Option<Self>)
        requires
            storage@.len() == 0,
            forall|i: usize| i < len ==> #[trigger] pixel.requires((i,)),
        ensures
            plane is None <==> start >= N,
            plane matches Some(p) ==> {
                &&& p.wf()
                &&& p.padding() == start
                &&& p@.len() == len
                &&& forall|i: int| 0 <= i < len ==> pixel.ensures((i as usize,), #[trigger] p@[i])
            },
    {
        if start >= N {
            return None;
        }
        let mut storage = storage;
        let mut k: usize = 0;
        while k < start
            invariant
                k <= start,
                storage@.len() == k,
            decreases start - k,
        {
            storage.push(T::default());
            k += 1;
        }
        let mut i: usize = 0;
        while i < len
            invariant
                i <= len,
                storage@.len() == start + i,
                forall|j: usize| j < len ==> #[trigger] pixel.requires((j,)),
                forall|j: int| 0 <= j < i ==> pixel.ensures((j as usize,), #[trigger] storage@[start + j]),
            decreases len - i,
        {
            let value = pixel(i);
            storage.push(value);
            i += 1;
        }
        let plane = Plane { storage, start };
        assert forall|j: int| 0 <= j < len implies pixel.ensures((j as usize,), #[trigger] plane@[j]) by {
            assert(plane@[j] == plane.storage@[start + j]);
        }
        Some(plane)
    }

    /// Storage for `len` pixels `pixel(0)`, ..., `pixel(len - 1)` that start
    /// at a 16-byte boundary of one allocation of `len + N - 1` values.
    /// `N` pixels must take 16 bytes and `len` must be a whole number of
    /// such groups. `None` when the platform cannot name the boundary: the
    /// offset to it depends on where the allocator put the buffer, and std
    /// allows `usize::MAX`, so no clause says when a plane comes back; for
    /// each offset, `place` states the outcome.
    pub fn from_fn<F: Fn(usize) -> T>(len: usize, pixel: F) -> (plane: Option<Self>)
        requires
            N * vstd::layout::size_of::<T>() == 16,
            N != 0,
            len % N == 0,
            len + N - 1 <= usize::MAX,
            forall|i: usize| i < len ==> #[trigger] pixel.requires((i,)),
        ensures
            plane matches Some(p) ==> {
                &&& p.wf()
                &&& p@.len() == len
                &&& forall|i: int| 0 <= i < len ==> pixel.ensures((i as usize,), #[trigger] p@[i])
            },
    {
        let storage: Vec<T> = Vec::with_capacity(len + (N - 1));
        let start = boundary_offset(&storage);
        Self::place(storage, start, len, pixel)
    }
}

/// How a texture's coverage is stored: not at all where every texel is
/// opaque, as one bit per texel where every texel is fully transparent or
/// fully opaque, and as one byte per texel otherwise.
#[derive(Clone, Copy, Debug, PartialEq, Eq, Structural)]
pub enum CoverageKind {
    Opaque,
    Cutout,
    Alpha8,
}

/// The storage that coverage bytes call for.
pub open spec fn coverage_kind_spec(alpha: Seq<u8>) -> CoverageKind {
    if forall|i: int| 0 <= i < alpha.len() ==> alpha[i] == 255 {
        CoverageKind::Opaque
    } else if forall|i: int| 0 <= i < alpha.len() ==> alpha[i] == 0 || alpha[i] == 255 {
        CoverageKind::Cutout
    } else {
        CoverageKind::Alpha8
    }
}

/// Chooses how to store the coverage bytes `alpha`.
pub fn coverage_kind(alpha: &[u8]) -> (kind: CoverageKind)
    ensures
        kind == coverage_kind_spec(alpha@),
{
    let mut opaque = true;
    let mut binary = true;
    let mut i: usize = 0;
    while i < alpha.len()
        invariant
            i <= alpha@.len(),
            opaque == forall|k: int| 0 <= k < i ==> alpha@[k] == 255,
            binary == forall|k: int| 0 <= k < i ==> alpha@[k] == 0 || alpha@[k] == 255,
        decreases alpha@.len() - i,
    {
        let a = alpha[i];
        if a != 255 {
            opaque = false;
            if a != 0 {
                binary = false;
            }
        }
        i += 1;
    }
    if opaque {
        CoverageKind::Opaque
    } else if binary {
        CoverageKind::Cutout
    } else {
        CoverageKind::Alpha8
    }
}

/// Whether every one of the first `count` mip levels, given by their widths
/// and heights, covers a screen rectangle of the given size.
pub open spec fn levels_cover(levels: Seq<(u16, u16)>, count: int, width: int, height: int) -> bool {
    forall|j: int| 0 <= j < count ==> #[trigger] levels[j].0 >= width && levels[j].1 >= height
}

/// How deep into a mip chain, finest level first, a texture drawn into a
/// `width` by `height` rectangle may go: past every level that still covers
/// the rectangle, up to the first that does not. Zero keeps the base
/// texture; `k` selects level `k - 1`.
pub fn select_level(levels: &Vec<(u16, u16)>, width: i32, height: i32) -> (depth: usize)
    ensures
        depth <= levels@.len(),
        levels_cover(levels@, depth as int, width as int, height as int),
        depth < levels@.len() ==> levels@[depth as int].0 < width || levels@[depth as int].1 < height,
{
    let mut depth: usize = 0;
    while depth < levels.len()
        invariant
            depth <= levels@.len(),
            levels_cover(levels@, depth as int, width as int, height as int),
        decreases levels@.len() - depth,
    {
        let (w, h) = levels[depth];
        if (w as i32) < width || (h as i32) < height {
            return depth;
        }
        depth += 1;
    }
    depth
}

} // verus!
