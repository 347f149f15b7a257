use crate::signal::FULL_SCALE;
use vstd::prelude::*;

verus! {

/// An encoding of raw PCM samples: a fixed byte width, and a level for each
/// sample in units of `1 / FULL_SCALE`.
pub trait PcmFormat: Sized + Copy {
    /// Bytes per sample.
    spec fn width() -> nat;

    /// The level of a decoded sample.
    spec fn level_of(&self) -> int;

    /// The level that `width()` bytes encode.
    spec fn chunk_level(chunk: Seq<u8>) -> int;

    fn bytes() -> (r: usize)
        ensures
            r == Self::width(),
            1 <= r <= 8,
    ;

    fn amplitude(&self) -> (r: i32)
        ensures
            r == self.level_of(),
            -FULL_SCALE <= r < FULL_SCALE,
    ;

    /// Decodes every whole sample in `bytes`, in order; trailing bytes that
    /// do not fill a sample are left out.
    fn from_bytes(bytes: &[u8]) -> (r: Vec<Self>)
        ensures
            r@.len() == bytes@.len() / Self::width(),
            forall|k: int|
                0 <= k < r@.len() ==> #[trigger] r@[k].level_of() == Self::chunk_level(
                    bytes@.subrange(k * Self::width(), k * Self::width() + Self::width()),
                ),
    ;
}

/// Unsigned 8-bit PCM, centred on 128.
#[derive(Clone, Copy, Debug)]
pub struct Unsigned8(pub u8);

/// Signed 16-bit little-endian PCM, centred on 0.
#[derive(Clone, Copy, Debug)]
pub struct Signed16Le(pub i16);

/// The signed 16-bit value of two little-endian bytes.
pub open spec fn le_i16(low: u8, high: u8) -> int {
    let v = low + 256 * high;
    if v >= 32768 {
        v - 65536
    } else {
        v
    }
}

impl PcmFormat for Unsigned8 {
    open spec fn width() -> nat {
        1
    }

    open spec fn level_of(&self) -> int {
        (self.0 - 128) * 256
    }

    open spec fn chunk_level(chunk: Seq<u8>) -> int {
        (chunk[0] - 128) * 256
    }

    fn bytes() -> (r: usize) {
        1
    }

    fn amplitude(&self) -> (r: i32) {
        (self.0 as i32 - 128) * 256
    }

    fn from_bytes(bytes: &[u8]) -> (r: Vec<Self>) {
        let mut r: Vec<Unsigned8> = Vec::new();
        let mut k: usize = 0;
        while k < bytes.len()
            invariant
                k <= bytes@.len(),
                r@.len() == k,
                forall|j: int|
                    0 <= j < k ==> #[trigger] r@[j].level_of() == Self::chunk_level(
                        bytes@.subrange(j, j + 1),
                    ),
            decreases bytes@.len() - k,
        {
            r.push(Unsigned8(bytes[k]));
            k = k + 1;
        }
        r
    }
}

impl PcmFormat for Signed16Le {
    open spec fn width() -> nat {
        2
    }

    open spec fn level_of(&self) -> int {
        self.0 as int
    }

    open spec fn chunk_level(chunk: Seq<u8>) -> int {
        le_i16(chunk[0], chunk[1])
    }

    fn bytes() -> (r: usize) {
        2
    }

    fn amplitude(&self) -> (r: i32) {
        self.0 as i32
    }

    fn from_bytes(bytes: &[u8]) -> (r: Vec<Self>) {
        let mut r: Vec<Signed16Le> = Vec::new();
        let count: usize = bytes.len() / 2;
        let mut k: usize = 0;
        while k < count
            invariant
                count == bytes@.len() / 2,
                k <= count,
                r@.len() == k,
                forall|j: int|
                    0 <= j < k ==> #[trigger] r@[j].level_of() == Self::chunk_level(
                        bytes@.subrange(j * 2, j * 2 + 2),
                    ),
            decreases count - k,
        {
            let low = bytes[2 * k];
            let high = bytes[2 * k + 1];
            let v: i32 = low as i32 + 256 * high as i32;
            let value: i16 = if v >= 32768 {
                (v - 65536) as i16
            } else {
                v as i16
            };
            proof {
                let chunk = bytes@.subrange(k * 2, k * 2 + 2);
                assert(chunk[0] == low && chunk[1] == high);
            }
            r.push(Signed16Le(value));
            k = k + 1;
        }
        r
    }
}

} // verus!
