//! The buffers that the pool's slots hold. An image carries its dimensions,
//! a tensor its shape; both carry the time they were produced and their
//! contents in one contiguous run.
use std::ops::{Deref, DerefMut};
use std::time::Instant;
use vstd::prelude::*;

verus! {

/// Bytes per pixel.
pub const CHANNELS: u32 = 3;

/// Width of the image that `ImageBuffer::default` makes.
pub const DEFAULT_WIDTH: u32 = 640;

/// Height of the image that `ImageBuffer::default` makes.
pub const DEFAULT_HEIGHT: u32 = 640;

/// Why a buffer could not be made.
#[derive(Clone, Copy, Debug, PartialEq, Eq, Structural)]
pub enum AllocError {
    /// The size asked for is more than the machine can count: the bytes of an
    /// image do not fit in a `u32`, or the elements of a tensor in a `usize`.
    TooLarge,
    /// The memory could not be had.
    OutOfMemory,
}

/// The number of bytes of an image of `width` by `height` pixels.
pub open spec fn byte_count(width: u32, height: u32) -> int {
    width * height * CHANNELS
}

/// `n` bytes, all zero.
pub open spec fn zeros(n: int) -> Seq<u8> {
    Seq::new(n as nat, |i: int| 0u8)
}

/// An image: `width` by `height` pixels of `CHANNELS` bytes each.
pub struct ImageBuffer {
    pub width: u32,
    pub height: u32,
    data: Vec<u8>,
    pub timestamp: Instant,
}

/// What an image is: its dimensions, its time stamp and its bytes.
pub struct ImageView {
    pub width: u32,
    pub height: u32,
    pub bytes: Seq<u8>,
    pub timestamp: Instant,
}

impl View for ImageBuffer {
    type V = ImageView;

    closed spec fn view(&self) -> ImageView {
        ImageView {
            width: self.width,
            height: self.height,
            bytes: self.data@,
            timestamp: self.timestamp,
        }
    }
}

impl ImageBuffer {
    /// A black image of `width` by `height` pixels, stamped with the current
    /// time.
    pub fn new(width: u32, height: u32) -> (made: Result<ImageBuffer, AllocError>)
        ensures
            match made {
                Ok(image) => {
                    &&& byte_count(width, height) <= u32::MAX
                    &&& image@.width == width
                    &&& image@.height == height
                    &&& image@.bytes == zeros(byte_count(width, height))
                },
                Err(AllocError::TooLarge) => byte_count(width, height) > u32::MAX,
                Err(AllocError::OutOfMemory) => byte_count(width, height) <= u32::MAX,
            },
    {
        let mut storage: Vec<u8> = Vec::new();
        let storage = match checked_byte_count(width, height) {
            Some(count) => match storage.try_reserve(count) {
                Ok(()) => Some(storage),
                Err(_) => None,
            },
            None => None,
        };
        ImageBuffer::with_storage(width, height, storage, Instant::now())
    }

    /// A black image of `width` by `height` pixels in `storage`, stamped
    /// `timestamp`. `storage` is the memory obtained for the image, or `None`
    /// where it could not be had; what it held before is discarded.
    pub fn with_storage(
        width: u32,
        height: u32,
        storage: Option<Vec<u8>>,
        timestamp: Instant,
    ) -> (made: Result<ImageBuffer, AllocError>)
        ensures
            match made {
                Ok(image) => {
                    &&& byte_count(width, height) <= u32::MAX
                    &&& storage is Some
                    &&& image@ == (ImageView {
                        width,
                        height,
                        bytes: zeros(byte_count(width, height)),
                        timestamp,
                    })
                },
                Err(AllocError::TooLarge) => byte_count(width, height) > u32::MAX,
                Err(AllocError::OutOfMemory) => byte_count(width, height) <= u32::MAX
                    && storage is None,
            },
    {
        match checked_byte_count(width, height) {
            None => Err(AllocError::TooLarge),
            Some(count) => match storage {
                None => Err(AllocError::OutOfMemory),
                Some(mut data) => {
                    data.clear();
                    data.resize(count, 0u8);
                    assert(data@ =~= zeros(byte_count(width, height)));
                    Ok(ImageBuffer { width, height, data, timestamp })
                },
            },
        }
    }

    /// The width of the image, in pixels.
    pub fn width(&self) -> (width: u32)
        ensures
            width == self@.width,
    {
        self.width
    }

    /// The height of the image, in pixels.
    pub fn height(&self) -> (height: u32)
        ensures
            height == self@.height,
    {
        self.height
    }

    /// The time the image was produced.
    pub fn timestamp(&self) -> (timestamp: Instant)
        ensures
            timestamp == self@.timestamp,
    {
        self.timestamp
    }
}

/// The number of bytes of an image of `width` by `height` pixels, where it
/// fits in a `u32`.
fn checked_byte_count(width: u32, height: u32) -> (count: Option<usize>)
    ensures
        count == if byte_count(width, height) <= u32::MAX {
            Some(byte_count(width, height) as usize)
        } else {
            None
        },
{
    match width.checked_mul(height) {
        Some(pixels) => match pixels.checked_mul(CHANNELS) {
            Some(bytes) => Some(bytes as usize),
            None => None,
        },
        None => {
            assert(byte_count(width, height) > u32::MAX) by (nonlinear_arith)
                requires
                    width * height > u32::MAX,
                    byte_count(width, height) == width * height * 3,
            ;
            None
        },
    }
}

impl Default for ImageBuffer {
    /// A black image of `DEFAULT_WIDTH` by `DEFAULT_HEIGHT` pixels.
    fn default() -> (image: Self)
        ensures
            image@.width == DEFAULT_WIDTH,
            image@.height == DEFAULT_HEIGHT,
            image@.bytes == zeros(byte_count(DEFAULT_WIDTH, DEFAULT_HEIGHT)),
    {
        let len = (DEFAULT_WIDTH * DEFAULT_HEIGHT * CHANNELS) as usize;
        let data = vec![0u8; len];
        assert(data@ =~= zeros(byte_count(DEFAULT_WIDTH, DEFAULT_HEIGHT)));
        ImageBuffer {
            width: DEFAULT_WIDTH,
            height: DEFAULT_HEIGHT,
            data,
            timestamp: Instant::now(),
        }
    }
}

impl Clone for ImageBuffer {
    /// A copy with bytes of its own: the same dimensions, the same time
    /// stamp, the same bytes.
    fn clone(&self) -> (copy: Self)
        ensures
            copy@ == self@,
    {
        let data = self.data.clone();
        assert(data@ =~= self.data@);
        ImageBuffer { width: self.width, height: self.height, data, timestamp: self.timestamp }
    }
}

impl Deref for ImageBuffer {
    type Target = [u8];

    fn deref(&self) -> (bytes: &[u8])
        ensures
            bytes@ == self@.bytes,
    {
        self.data.as_slice()
    }
}

impl DerefMut for ImageBuffer {
    fn deref_mut(&mut self) -> (bytes: &mut [u8])
        ensures
            bytes@ == old(self)@.bytes,
            final(self)@ == (ImageView { bytes: final(bytes)@, ..old(self)@ }),
    {
        self.data.as_mut_slice()
    }
}

/// The number of elements of a tensor of shape `size`: the product of its
/// dimensions, 1 for the empty shape.
pub open spec fn volume(size: Seq<usize>) -> nat
    decreases size.len(),
{
    if size.len() == 0 {
        1
    } else {
        volume(size.drop_last()) * (size.last() as nat)
    }
}

proof fn lemma_volume_step(size: Seq<usize>, k: int)
    requires
        0 <= k < size.len(),
    ensures
        volume(size.take(k + 1)) == volume(size.take(k)) * (size[k] as nat),
{
    assert(size.take(k + 1).drop_last() =~= size.take(k));
}

/// A shape with a dimension of zero has no elements.
pub proof fn lemma_volume_zero(size: Seq<usize>, at: int)
    requires
        0 <= at < size.len(),
        size[at] == 0,
    ensures
        volume(size) == 0,
    decreases size.len(),
{
    if at < size.len() - 1 {
        lemma_volume_zero(size.drop_last(), at);
        assert(volume(size.drop_last()) * (size.last() as nat) == 0) by (nonlinear_arith)
            requires
                volume(size.drop_last()) == 0,
        ;
    } else {
        assert(volume(size.drop_last()) * (size.last() as nat) == 0) by (nonlinear_arith)
            requires
                size.last() as nat == 0,
        ;
    }
}

proof fn lemma_volume_grows(size: Seq<usize>, k: int)
    requires
        0 <= k <= size.len(),
        forall|j: int| 0 <= j < size.len() ==> size[j] != 0,
    ensures
        volume(size.take(k)) <= volume(size),
    decreases size.len() - k,
{
    if k == size.len() {
        assert(size.take(k) =~= size);
    } else {
        lemma_volume_step(size, k);
        lemma_volume_grows(size, k + 1);
        assert(volume(size.take(k)) <= volume(size.take(k)) * (size[k] as nat))
            by (nonlinear_arith)
            requires
                size[k] as nat >= 1,
        ;
    }
}

/// The number of elements of a tensor of shape `size`, where it fits in a
/// `usize`.
pub fn element_count(size: &Vec<usize>) -> (count: Option<usize>)
    ensures
        count == if volume(size@) <= usize::MAX {
            Some(volume(size@) as usize)
        } else {
            None
        },
{
    let mut k: usize = 0;
    while k < size.len()
        invariant
            k <= size@.len(),
            forall|j: int| 0 <= j < k ==> size@[j] != 0,
        decreases size@.len() - k,
    {
        if size[k] == 0 {
            proof {
                lemma_volume_zero(size@, k as int);
            }
            return Some(0);
        }
        k += 1;
    }
    let mut product: usize = 1;
    k = 0;
    while k < size.len()
        invariant
            k <= size@.len(),
            forall|j: int| 0 <= j < size@.len() ==> size@[j] != 0,
            product == volume(size@.take(k as int)),
        decreases size@.len() - k,
    {
        proof {
            lemma_volume_step(size@, k as int);
        }
        match product.checked_mul(size[k]) {
            Some(next) => {
                product = next;
            },
            None => {
                proof {
                    lemma_volume_grows(size@, k + 1);
                }
                return None;
            },
        }
        k += 1;
    }
    assert(size@.take(k as int) =~= size@);
    Some(product)
}

/// What a tensor is: its shape, its time stamp and its elements.
pub struct TensorView<E> {
    pub size: Seq<usize>,
    pub elements: Seq<E>,
    pub timestamp: Instant,
}

/// A tensor of elements of type `E`. Its storage is obtained once, when the
/// tensor is made: a tensor can be given another shape, but never one that
/// holds more elements than its storage.
pub struct TensorBuffer<E> {
    size: Vec<usize>,
    data: Vec<E>,
    timestamp: Instant,
}

impl<E> View for TensorBuffer<E> {
    type V = TensorView<E>;

    closed spec fn view(&self) -> TensorView<E> {
        TensorView { size: self.size@, elements: self.data@, timestamp: self.timestamp }
    }
}

impl<E> TensorBuffer<E> {
    /// The shape asks for no more elements than the storage holds.
    pub open spec fn well_formed(&self) -> bool {
        volume(self@.size) <= self@.elements.len()
    }

    /// A tensor of shape `size`, every element the default of `E`, stamped
    /// with the current time.
    pub fn new(size: Vec<usize>) -> (made: Result<TensorBuffer<E>, AllocError>) where E: Default
        ensures
            match made {
                Ok(tensor) => {
                    &&& tensor@.size == size@
                    &&& tensor@.elements.len() == volume(size@)
                    &&& forall|i: int|
                        0 <= i < tensor@.elements.len() ==> call_ensures(
                            E::default,
                            (),
                            #[trigger] tensor@.elements[i],
                        )
                    &&& tensor.well_formed()
                },
                Err(AllocError::TooLarge) => volume(size@) > usize::MAX,
                Err(AllocError::OutOfMemory) => volume(size@) <= usize::MAX,
            },
    {
        let mut storage: Vec<E> = Vec::new();
        let storage = match element_count(&size) {
            Some(count) => match storage.try_reserve(count) {
                Ok(()) => Some(storage),
                Err(_) => None,
            },
            None => None,
        };
        TensorBuffer::with_storage(size, storage, Instant::now())
    }

    /// A tensor of shape `size` in `storage`, every element the default of
    /// `E`, stamped `timestamp`. `storage` is the memory obtained for the
    /// tensor, or `None` where it could not be had; what it held before is
    /// discarded.
    pub fn with_storage(size: Vec<usize>, storage: Option<Vec<E>>, timestamp: Instant) -> (made:
        Result<TensorBuffer<E>, AllocError>) where E: Default
        ensures
            match made {
                Ok(tensor) => {
                    &&& volume(size@) <= usize::MAX
                    &&& storage is Some
                    &&& tensor@.size == size@
                    &&& tensor@.timestamp == timestamp
                    &&& tensor@.elements.len() == volume(size@)
                    &&& forall|i: int|
                        0 <= i < tensor@.elements.len() ==> call_ensures(
                            E::default,
                            (),
                            #[trigger] tensor@.elements[i],
                        )
                    &&& tensor.well_formed()
                },
                Err(AllocError::TooLarge) => volume(size@) > usize::MAX,
                Err(AllocError::OutOfMemory) => volume(size@) <= usize::MAX && storage is None,
            },
    {
        match element_count(&size) {
            None => Err(AllocError::TooLarge),
            Some(count) => match storage {
                None => Err(AllocError::OutOfMemory),
                Some(mut data) => {
                    data.clear();
                    let mut k: usize = 0;
                    while k < count
                        invariant
                            k <= count,
                            data@.len() == k,
                            forall|i: int|
                                0 <= i < k ==> call_ensures(E::default, (), #[trigger] data@[i]),
                        decreases count - k,
                    {
                        data.push(E::default());
                        k += 1;
                    }
                    Ok(TensorBuffer { size, data, timestamp })
                },
            },
        }
    }

    /// The shape of the tensor.
    pub fn size(&self) -> (size: &Vec<usize>)
        ensures
            size@ == self@.size,
    {
        &self.size
    }

    /// The time the tensor was produced.
    pub fn timestamp(&self) -> (timestamp: Instant)
        ensures
            timestamp == self@.timestamp,
    {
        self.timestamp
    }

    /// Gives the tensor the shape `size`. The storage stays as it is, so the
    /// new shape must not ask for more elements than it holds.
    pub fn resize(&mut self, size: Vec<usize>)
        requires
            volume(size@) <= old(self)@.elements.len(),
        ensures
            final(self)@ == (TensorView { size: size@, ..old(self)@ }),
            final(self).well_formed(),
    {
        self.size = size;
    }

    /// Gives the tensor the shape `size` where the storage holds that many
    /// elements, and says whether it did. A tensor that is not reshaped stays
    /// as it is.
    pub fn try_resize(&mut self, size: Vec<usize>) -> (done: bool)
        ensures
            done == (volume(size@) <= old(self)@.elements.len()),
            final(self)@ == if done {
                TensorView { size: size@, ..old(self)@ }
            } else {
                old(self)@
            },
            old(self).well_formed() ==> final(self).well_formed(),
    {
        let capacity = self.data.len();
        match element_count(&size) {
            Some(count) => {
                if count <= capacity {
                    self.resize(size);
                    true
                } else {
                    false
                }
            },
            None => false,
        }
    }
}

impl<E: Copy> Clone for TensorBuffer<E> {
    /// A copy with storage of its own: the same shape, the same time stamp,
    /// and every element copied as it is.
    fn clone(&self) -> (copy: Self)
        ensures
            copy@ == self@,
    {
        let size = self.size.clone();
        assert(size@ =~= self.size@);
        let mut data: Vec<E> = Vec::with_capacity(self.data.len());
        let mut k: usize = 0;
        while k < self.data.len()
            invariant
                k <= self.data@.len(),
                data@ == self.data@.take(k as int),
            decreases self.data@.len() - k,
        {
            data.push(self.data[k]);
            k += 1;
        }
        assert(data@ =~= self.data@);
        TensorBuffer { size, data, timestamp: self.timestamp }
    }
}

impl<E> Deref for TensorBuffer<E> {
    type Target = [E];

    fn deref(&self) -> (elements: &[E])
        ensures
            elements@ == self@.elements,
    {
        self.data.as_slice()
    }
}

impl<E> DerefMut for TensorBuffer<E> {
    fn deref_mut(&mut self) -> (elements: &mut [E])
        ensures
            elements@ == old(self)@.elements,
            final(self)@ == (TensorView { elements: final(elements)@, ..old(self)@ }),
    {
        self.data.as_mut_slice()
    }
}

} // verus!
