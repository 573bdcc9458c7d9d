//! GIF deanimation: keep only the first or the last image of an animated
//! GIF.

use vstd::prelude::*;
use crate::error::{PrivoxyError, PrivoxyResult};
use crate::text::{chars_of, seq_eq};

verus! {

/// A buffer of bytes with a read/write offset.
#[derive(Debug, Clone)]
pub struct BinBuffer {
    /// The bytes.
    pub buffer: Vec<u8>,
    /// Current read/write offset.
    pub offset: usize,
    /// Number of bytes the buffer holds.
    pub size: usize,
}

impl BinBuffer {
    /// The buffer holds exactly `size` bytes.
    pub open spec fn wf(&self) -> bool {
        self.buffer@.len() == self.size
    }

    /// An empty buffer.
    pub fn new() -> (r: Self)
        ensures
            r.buffer@.len() == 0,
            r.offset == 0,
            r.size == 0,
    {
        BinBuffer { buffer: Vec::new(), offset: 0, size: 0 }
    }

    /// A buffer holding a copy of `data`, read from the start.
    pub fn from_data(data: &[u8]) -> (r: Self)
        ensures
            r.buffer@ == data@,
            r.offset == 0,
            r.size == data@.len(),
    {
        let v = vstd::slice::slice_to_vec(data);
        let n = data.len();
        BinBuffer { buffer: v, offset: 0, size: n }
    }

    /// Grow the buffer, in steps of 1024 bytes, so that `length` more bytes
    /// fit after the offset.
    fn extend(&mut self, length: usize) -> (r: PrivoxyResult<()>)
        requires
            old(self).wf(),
            old(self).offset <= old(self).size,
            old(self).size + length + 2048 <= usize::MAX,
        ensures
            r is Ok,
            final(self).wf(),
            final(self).offset == old(self).offset,
            final(self).size >= old(self).size,
            final(self).offset + length <= final(self).size,
            old(self).offset + length > old(self).size ==> final(self).size <= old(self).size
                + length + 2047,
            old(self).offset + length <= old(self).size ==> final(self).size == old(self).size,
            final(self).buffer@.subrange(0, old(self).size as int) == old(self).buffer@,
    {
        if length > self.size - self.offset {
            let x = self.size + length + 1023;
            let rounded = (x / 1024) * 1024;
            proof {
                assert(rounded <= x && rounded + 1024 > x) by (nonlinear_arith)
                    requires
                        rounded == (x / 1024) * 1024,
                ;
            }
            let new_size = if rounded < 1024 {
                1024
            } else {
                rounded
            };
            let ghost old_buf = self.buffer@;
            self.buffer.resize(new_size, 0);
            assert(self.buffer@.subrange(0, old_buf.len() as int) =~= old_buf);
            self.size = new_size;
        }
        Ok(())
    }

    /// The byte `k` positions after the offset, if there is one.
    pub open spec fn byte_at(&self, k: int) -> Option<u8> {
        if self.offset + k < self.size {
            Some(self.buffer@[self.offset + k])
        } else {
            None
        }
    }

    fn get_byte(&self, k: usize) -> (r: Option<u8>)
        requires
            self.wf(),
            self.offset + k <= usize::MAX,
        ensures
            r == self.byte_at(k as int),
    {
        if self.offset + k < self.size {
            Some(self.buffer[self.offset + k])
        } else {
            None
        }
    }

    /// Copy `length` bytes from `src` at its offset to `self` at its offset,
    /// advancing both offsets.
    fn copy_from(&mut self, src: &mut BinBuffer, length: usize) -> (r: PrivoxyResult<()>)
        requires
            old(self).wf(),
            old(src).wf(),
            old(self).offset <= old(self).size,
            old(self).size + length + 2048 <= usize::MAX,
        ensures
            final(src).buffer@ == old(src).buffer@,
            final(src).size == old(src).size,
            final(self).wf(),
            copy_ok(*old(src), length) ==> {
                &&& r is Ok
                &&& final(self).offset == old(self).offset + length
                &&& final(src).offset == old(src).offset + length
                &&& final(self).offset <= final(self).size
                &&& (final(self).size == old(self).size || final(self).size <= 2 * final(self).offset
                    + 2047)
                &&& final(self).buffer@.subrange(0, final(self).offset as int) == old(
                    self,
                ).buffer@.subrange(0, old(self).offset as int) + old(src).buffer@.subrange(
                    old(src).offset as int,
                    old(src).offset + length,
                )
            },
            !copy_ok(*old(src), length) ==> {
                &&& r is Err
                &&& *final(self) == *old(self)
                &&& final(src).offset == old(src).offset
            },
    {
        if src.buffer.len() == 0 || src.size == 0 || length == 0 {
            return Err(PrivoxyError::Other(crate::text::own("Invalid source buffer or length")));
        }
        if src.offset > src.size || length > src.size - src.offset {
            return Err(
                PrivoxyError::Other(crate::text::own("Source buffer doesn't contain requested data")),
            );
        }
        let ghost old_buf = self.buffer@;
        let ghost old_size = self.size;
        let _ = self.extend(length);
        let ghost ext_buf = self.buffer@;
        let ghost off0 = self.offset;
        let ghost soff0 = src.offset;
        let ghost size1 = self.size;
        let ghost sbuf = src.buffer@;
        let ghost ssize = src.size;
        assert(ext_buf.subrange(0, old_size as int) == old_buf);
        assert(off0 <= old_size);
        let mut k: usize = 0;
        while k < length
            invariant
                k <= length,
                self.offset == off0,
                src.offset == soff0,
                self.size == size1,
                src.buffer@ == sbuf,
                src.size == ssize,
                off0 <= old_size <= ext_buf.len(),
                ext_buf.subrange(0, old_size as int) == old_buf,
                self.wf(),
                src.wf(),
                self.offset + length <= self.size,
                src.offset + length <= src.size,
                self.buffer@.len() == ext_buf.len(),
                forall|j: int| 0 <= j < self.offset ==> #[trigger] self.buffer@[j] == ext_buf[j],
                forall|i: int|
                    off0 <= i < off0 + k ==> #[trigger] self.buffer@[i] == src.buffer@[soff0 + (i
                        - off0)],
            decreases length - k,
        {
            let b = src.buffer[src.offset + k];
            self.buffer.set(self.offset + k, b);
            k += 1;
        }
        let ghost so = src.offset;
        assert(self.buffer@.subrange(0, self.offset + length) =~= old_buf.subrange(
            0,
            self.offset as int,
        ) + src.buffer@.subrange(so as int, so + length)) by {
            assert forall|j: int| 0 <= j < self.offset implies #[trigger] self.buffer@[j]
                == old_buf[j] by {
                assert(ext_buf[j] == ext_buf.subrange(0, old_size as int)[j]);
            }
        }
        src.offset = src.offset + length;
        self.offset = self.offset + length;
        Ok(())
    }

    /// Skip a GIF data block: a run of chunks, each headed by its length,
    /// ended by a chunk of length 0.
    fn skip_data_block(&mut self) -> (r: PrivoxyResult<()>)
        requires
            old(self).wf(),
            old(self).offset <= old(self).size,
        ensures
            final(self).wf(),
            final(self).buffer@ == old(self).buffer@,
            final(self).size == old(self).size,
            r is Ok <==> skip_block(old(self).buffer@, old(self).offset as int) is Some,
            r is Ok ==> skip_block(old(self).buffer@, old(self).offset as int) == Some(
                final(self).offset as int,
            ),
            r is Ok ==> final(self).offset <= final(self).size,
    {
        let ghost d = self.buffer@;
        let ghost p0 = self.offset as int;
        while self.offset < self.size
            invariant
                self.wf(),
                d == old(self).buffer@,
                p0 == old(self).offset,
                self.size == old(self).size,
                self.buffer@ == d,
                self.size == d.len(),
                self.offset <= self.size,
                skip_block(d, p0) == skip_block(d, self.offset as int),
            decreases self.size - self.offset,
        {
            let chunk = self.buffer[self.offset];
            if chunk == 0 {
                self.offset = self.offset + 1;
                return Ok(());
            }
            if chunk as usize + 1 >= self.size - self.offset {
                return Err(PrivoxyError::Other(crate::text::own("Data block extends beyond buffer")));
            }
            self.offset = self.offset + chunk as usize + 1;
        }
        Err(PrivoxyError::Other(crate::text::own("No terminator found in data block")))
    }

    /// Append the image block at `src`'s offset to `self`: its 10-byte
    /// header, its local colormap if it has one, and its data chunks.
    /// Afterwards `self` holds exactly its bytes and is read from the start.
    fn extract_image(&mut self, src: &mut BinBuffer) -> (r: PrivoxyResult<()>)
        requires
            old(self).wf(),
            old(src).wf(),
            old(self).offset <= old(self).size,
            old(src).offset <= old(src).size,
            old(src).size <= usize::MAX / 4,
            old(self).size <= 2 * old(src).size + 2047,
            old(self).offset + (old(src).size - old(src).offset) <= old(src).size,
        ensures
            final(src).buffer@ == old(src).buffer@,
            final(src).size == old(src).size,
            final(src).wf(),
            final(self).wf(),
            r is Ok <==> extract(old(src).buffer@, old(src).offset as int) is Some,
            r is Ok ==> {
                let end = extract(old(src).buffer@, old(src).offset as int)->0;
                &&& final(src).offset == end
                &&& final(self).offset == 0
                &&& final(self).buffer@ == old(self).buffer@.subrange(0, old(self).offset as int)
                    + old(src).buffer@.subrange(old(src).offset as int, end)
            },
            final(self).size <= 2 * old(src).size + 2047,
            final(self).offset <= final(self).size,
    {
        let ghost d = src.buffer@;
        let ghost p0 = src.offset as int;
        let ghost base = self.buffer@.subrange(0, self.offset as int);
        let c = match src.get_byte(9) {
            Some(c) => c,
            None => {
                return Err(PrivoxyError::Other(crate::text::own("Invalid image header")));
            },
        };
        assert(copy_ok(*src, 10));
        let _ = self.copy_from(src, 10);
        assert(src.size == d.len());
        assert(self.offset <= d.len());
        assert(self.size <= 2 * d.len() + 2047);
        if c & 0x80 != 0 {
            let map_length = colormap_len(c);
            if self.copy_from(src, map_length).is_err() {
                return Err(PrivoxyError::Other(crate::text::own("Invalid colormap")));
            }
            assert(src.size == d.len());
            assert(self.offset <= d.len());
            assert(self.size <= 2 * d.len() + 2047);
        }
        if src.offset >= src.size {
            return Err(PrivoxyError::Other(crate::text::own("Missing LZW code size")));
        }
        let _ = self.copy_from(src, 1);
        assert(self.buffer@.subrange(0, self.offset as int) =~= base + d.subrange(p0, src.offset as int));
        let mut done = false;
        while !done && src.offset < src.size
            invariant
                src.wf(),
                self.wf(),
                d == old(src).buffer@,
                old(src).size == d.len(),
                p0 == old(src).offset,
                base == old(self).buffer@.subrange(0, old(self).offset as int),
                src.buffer@ == d,
                src.size == d.len(),
                d.len() <= usize::MAX / 4,
                p0 <= src.offset <= src.size,
                self.offset <= self.size,
                self.size <= 2 * d.len() + 2047,
                self.offset == base.len() + (src.offset - p0),
                base.len() + (d.len() - p0) <= d.len(),
                self.buffer@.subrange(0, self.offset as int) == base + d.subrange(
                    p0,
                    src.offset as int,
                ),
                !done ==> extract(d, p0) == chunks(d, src.offset as int),
                done ==> extract(d, p0) == Some(src.offset as int),
            decreases src.size - src.offset,
        {
            let chunk = src.buffer[src.offset];
            if chunk == 0 {
                let _ = self.copy_from(src, 1);
                assert(self.buffer@.subrange(0, self.offset as int) =~= base + d.subrange(p0, src.offset as int));
                done = true;
            } else {
                if self.copy_from(src, 1 + chunk as usize).is_err() {
                    return Err(PrivoxyError::Other(crate::text::own("Truncated image data")));
                }
                assert(self.buffer@.subrange(0, self.offset as int) =~= base + d.subrange(p0, src.offset as int));
            }
        }
        let n = self.offset;
        self.buffer.truncate(n);
        self.size = n;
        self.offset = 0;
        Ok(())
    }

    /// The bytes after the offset.
    pub fn remaining(&self) -> (r: &[u8])
        requires
            self.wf(),
            self.offset <= self.size,
        ensures
            r@ == self.buffer@.subrange(self.offset as int, self.size as int),
    {
        let s = self.buffer.as_slice();
        &s[self.offset..self.size]
    }
}

/// Whether `length` bytes can be copied from `src`.
pub open spec fn copy_ok(src: BinBuffer, length: usize) -> bool {
    &&& src.buffer@.len() > 0
    &&& src.size != 0
    &&& length != 0
    &&& src.offset + length <= src.size
}

/// Where a data block starting at `p` ends, if it is well formed.
pub open spec fn skip_block(d: Seq<u8>, p: int) -> Option<int>
    decreases d.len() - p,
{
    if p < 0 || p >= d.len() {
        None
    } else if d[p] == 0 {
        Some(p + 1)
    } else if p + d[p] + 1 >= d.len() {
        None
    } else {
        skip_block(d, p + d[p] + 1)
    }
}

/// Length of the colormap announced by a GIF flags byte.
pub open spec fn colormap_size(c: u8) -> int {
    3 * (1usize << (((c & 7u8) + 1u8) as usize)) as int
}

fn colormap_len(c: u8) -> (r: usize)
    ensures
        r == colormap_size(c),
        6 <= r <= 768,
{
    assert((c & 7u8) <= 7u8) by (bit_vector);
    let k = ((c & 7u8) + 1u8) as usize;
    let p = 1usize << k;
    assert(1 <= k <= 8 ==> (1usize << k) >= 2 && (1usize << k) <= 256) by (bit_vector);
    3 * p
}

/// Where the data chunks of an image, starting at `q`, end.  Running out
/// of input also ends them.
pub open spec fn chunks(d: Seq<u8>, q: int) -> Option<int>
    decreases d.len() - q,
{
    if q >= d.len() {
        Some(q)
    } else if q < 0 {
        None
    } else if d[q] == 0 {
        Some(q + 1)
    } else if q + 1 + d[q] > d.len() {
        None
    } else {
        chunks(d, q + 1 + d[q])
    }
}

/// Where the image data starting at `q` ends: the byte that gives the LZW
/// code size, then the data chunks.
pub open spec fn image_data(d: Seq<u8>, q: int) -> Option<int> {
    if q < 0 || q >= d.len() {
        None
    } else {
        chunks(d, q + 1)
    }
}

/// Where the image block starting at `p` ends, if it is well formed: the
/// image descriptor, a local colour table where its flag is set, then the
/// image data.
pub open spec fn extract(d: Seq<u8>, p: int) -> Option<int> {
    if p < 0 || p + 9 >= d.len() {
        None
    } else {
        let c = d[p + 9];
        let q = p + 10;
        if c & 0x80u8 != 0 {
            if q + colormap_size(c) > d.len() {
                None
            } else {
                image_data(d, q + colormap_size(c))
            }
        } else {
            image_data(d, q)
        }
    }
}

pub proof fn lemma_chunks_bounds(d: Seq<u8>, q: int)
    requires
        0 <= q <= d.len(),
    ensures
        chunks(d, q) matches Some(e) ==> q <= e <= d.len(),
        q < d.len() ==> (chunks(d, q) matches Some(e) ==> q < e),
    decreases d.len() - q,
{
    if q < d.len() && d[q] != 0 && q + 1 + d[q] <= d.len() {
        lemma_chunks_bounds(d, q + 1 + d[q]);
    }
}

pub proof fn lemma_extract_bounds(d: Seq<u8>, p: int)
    ensures
        extract(d, p) matches Some(e) ==> p + 10 <= e <= d.len(),
{
    if 0 <= p && p + 9 < d.len() {
        let c = d[p + 9];
        if c & 0x80u8 != 0 {
            if p + 10 + colormap_size(c) < d.len() {
                lemma_colormap_size(c);
                lemma_chunks_bounds(d, p + 10 + colormap_size(c) + 1);
            }
        } else if p + 10 < d.len() {
            lemma_chunks_bounds(d, p + 10 + 1);
        }
    }
}

pub proof fn lemma_colormap_size(c: u8)
    ensures
        6 <= colormap_size(c) <= 768,
{
    assert((c & 7u8) <= 7u8) by (bit_vector);
    let k = ((c & 7u8) + 1u8) as usize;
    assert(1 <= k <= 8 ==> (1usize << k) >= 2 && (1usize << k) <= 256) by (bit_vector);
}

pub proof fn lemma_skip_bounds(d: Seq<u8>, p: int)
    ensures
        skip_block(d, p) matches Some(e) ==> p < e <= d.len(),
    decreases d.len() - p,
{
    if 0 <= p < d.len() && d[p] != 0 && p + d[p] + 1 < d.len() {
        lemma_skip_bounds(d, p + d[p] + 1);
    }
}

/// Scan the blocks of a GIF from `pos` on.  `head` is the header and global
/// colormap, `img` the image kept so far (with the graphic control
/// extensions before it); `buffered` tells whether `img` holds a whole
/// image.  The result is the GIF holding only the first image (`first`) or
/// the last one.
pub open spec fn scan(
    d: Seq<u8>,
    pos: int,
    head: Seq<u8>,
    img: Seq<u8>,
    buffered: bool,
    first: bool,
) -> Option<Seq<u8>>
    decreases d.len() - pos,
{
    if pos < 0 || pos >= d.len() {
        None
    } else if d[pos] == 0x3b {
        if buffered {
            Some(head + img + seq![0x3bu8])
        } else {
            None
        }
    } else if d[pos] == 0x2c {
        let base = if buffered {
            Seq::<u8>::empty()
        } else {
            img
        };
        match extract(d, pos) {
            None => None,
            Some(end) => {
                proof {
                    lemma_extract_bounds(d, pos);
                }
                let img2 = base + d.subrange(pos, end);
                if first {
                    Some(head + img2 + seq![0x3bu8])
                } else {
                    scan(d, end, head, img2, true, first)
                }
            },
        }
    } else if d[pos] == 0x21 {
        if pos + 1 >= d.len() {
            None
        } else if d[pos + 1] == 0xf9 {
            if pos + 8 > d.len() {
                None
            } else {
                let base = if buffered {
                    Seq::<u8>::empty()
                } else {
                    img
                };
                scan(d, pos + 8, head, base + d.subrange(pos, pos + 8), false, first)
            }
        } else if d[pos + 1] == 0xff || d[pos + 1] == 0xfe || d[pos + 1] == 0x01 {
            let k = if d[pos + 1] == 0xff {
                pos + 14
            } else if d[pos + 1] == 0xfe {
                pos + 2
            } else {
                pos + 15
            };
            if k >= d.len() {
                None
            } else {
                match skip_block(d, k) {
                    None => None,
                    Some(e) => {
                        proof {
                            lemma_skip_bounds(d, k);
                        }
                        scan(d, e, head, img, buffered, first)
                    },
                }
            }
        } else {
            None
        }
    } else {
        None
    }
}

pub open spec fn gif89a() -> Seq<u8> {
    seq![0x47u8, 0x49u8, 0x46u8, 0x38u8, 0x39u8, 0x61u8]
}

pub open spec fn gif87a() -> Seq<u8> {
    seq![0x47u8, 0x49u8, 0x46u8, 0x38u8, 0x37u8, 0x61u8]
}

pub open spec fn has_gif_signature(d: Seq<u8>) -> bool {
    d.len() >= 6 && (d.subrange(0, 6) == gif89a() || d.subrange(0, 6) == gif87a())
}

/// The deanimated GIF: its header and global colormap, then the first or
/// the last image, then the trailer.  `None` when the data is not a GIF or
/// is malformed.
pub open spec fn deanimated(d: Seq<u8>, first: bool) -> Option<Seq<u8>> {
    if d.len() <= 10 || !has_gif_signature(d) || d.len() < 13 {
        None
    } else {
        let c = d[10];
        if c & 0x80u8 != 0 {
            if 13 + colormap_size(c) > d.len() {
                None
            } else {
                scan(d, 13 + colormap_size(c), d.subrange(0, 13 + colormap_size(c)), Seq::empty(), false, first)
            }
        } else {
            scan(d, 13, d.subrange(0, 13), Seq::empty(), false, first)
        }
    }
}

fn has_signature(b: &[u8]) -> (r: bool)
    ensures
        r == has_gif_signature(b@),
{
    if b.len() < 6 {
        return false;
    }
    let ok = b[0] == 0x47 && b[1] == 0x49 && b[2] == 0x46 && b[3] == 0x38 && (b[4] == 0x39 || b[4] == 0x37) && b[5] == 0x61;
    proof {
        if ok {
            if b[4] == 0x39 {
                assert(b@.subrange(0, 6) =~= gif89a());
            } else {
                assert(b@.subrange(0, 6) =~= gif87a());
            }
        } else {
            if b@.subrange(0, 6) == gif89a() {
                assert(b@[4] == b@.subrange(0, 6)[4]);
                assert(b@[0] == b@.subrange(0, 6)[0]);
                assert(b@[1] == b@.subrange(0, 6)[1]);
                assert(b@[2] == b@.subrange(0, 6)[2]);
                assert(b@[3] == b@.subrange(0, 6)[3]);
                assert(b@[5] == b@.subrange(0, 6)[5]);
            }
            if b@.subrange(0, 6) == gif87a() {
                assert(b@[4] == b@.subrange(0, 6)[4]);
                assert(b@[0] == b@.subrange(0, 6)[0]);
                assert(b@[1] == b@.subrange(0, 6)[1]);
                assert(b@[2] == b@.subrange(0, 6)[2]);
                assert(b@[3] == b@.subrange(0, 6)[3]);
                assert(b@[5] == b@.subrange(0, 6)[5]);
            }
        }
    }
    ok
}

/// Deanimate a GIF by keeping its first image (`get_first_image`) or its
/// last one.
pub fn gif_deanimate(src: &[u8], get_first_image: bool) -> (r: Option<Vec<u8>>)
    requires
        src@.len() <= usize::MAX / 4,
    ensures
        match (r, deanimated(src@, get_first_image)) {
            (Some(v), Some(w)) => v@ == w,
            (None, None) => true,
            _ => false,
        },
{
    let ghost d = src@;
    let mut src_buf = BinBuffer::from_data(src);
    let mut dst_buf = BinBuffer::new();
    let mut image_buf = BinBuffer::new();
    let mut image_buffered = false;

    if src_buf.size <= 10 {
        return None;
    }
    if !has_signature(&src_buf.buffer) {
        return None;
    }
    let c = match src_buf.get_byte(10) {
        Some(c) => c,
        None => {
            return None;
        },
    };
    if dst_buf.copy_from(&mut src_buf, 13).is_err() {
        return None;
    }
    assert(dst_buf.buffer@.subrange(0, 13) =~= d.subrange(0, 13));
    if c & 0x80 != 0 {
        let map_length = colormap_len(c);
        if dst_buf.copy_from(&mut src_buf, map_length).is_err() {
            return None;
        }
        assert(dst_buf.buffer@.subrange(0, dst_buf.offset as int) =~= d.subrange(0, 13 + map_length));
    }
    let ghost head = dst_buf.buffer@.subrange(0, dst_buf.offset as int);
    let ghost mut img: Seq<u8> = Seq::empty();
    assert(image_buf.buffer@.subrange(0, 0) =~= img);
    while src_buf.offset < src_buf.size
        invariant
            d == src@,
            d.len() <= usize::MAX / 4,
            src_buf.wf(),
            src_buf.buffer@ == d,
            src_buf.size == d.len(),
            dst_buf.wf(),
            image_buf.wf(),
            dst_buf.offset <= dst_buf.size <= 2 * d.len() + 2047,
            image_buf.offset <= image_buf.size <= 2 * d.len() + 2047,
            dst_buf.buffer@.subrange(0, dst_buf.offset as int) == head,
            head.len() == dst_buf.offset,
            head.len() + img.len() <= src_buf.offset <= d.len(),
            image_buffered ==> (image_buf.offset == 0 && image_buf.buffer@ == img && img.len() >= 10),
            !image_buffered ==> (image_buf.buffer@.subrange(0, image_buf.offset as int) == img),
            deanimated(d, get_first_image) == scan(d, src_buf.offset as int, head, img, image_buffered, get_first_image),
        decreases src_buf.size - src_buf.offset,
    {
        let pos = src_buf.offset;
        let b0 = src_buf.buffer[pos];
        assert(d[pos as int] == b0);
        if b0 == 0x3b {
            if !image_buffered {
                assert(scan(d, pos as int, head, img, image_buffered, get_first_image) is None);
                return None;
            }
            let image_size = image_buf.size;
            if dst_buf.copy_from(&mut image_buf, image_size).is_err() {
                return None;
            }
            assert(image_buf.buffer@.subrange(0, image_size as int) =~= img);
            let n = dst_buf.offset;
            dst_buf.buffer.truncate(n);
            dst_buf.buffer.push(0x3b);
            assert(dst_buf.buffer@ =~= head + img + seq![0x3bu8]);
            return Some(dst_buf.buffer);
        } else if b0 == 0x2c {
            if image_buffered {
                image_buf.offset = 0;
                assert(image_buf.buffer@.subrange(0, 0) =~= Seq::<u8>::empty());
            }
            let ghost base = image_buf.buffer@.subrange(0, image_buf.offset as int);
            if image_buf.extract_image(&mut src_buf).is_err() {
                return None;
            }
            proof {
                lemma_extract_bounds(d, pos as int);
                img = base + d.subrange(pos as int, src_buf.offset as int);
            }
            image_buffered = true;
            if get_first_image {
                let image_size = image_buf.size;
                if dst_buf.copy_from(&mut image_buf, image_size).is_err() {
                    return None;
                }
                assert(image_buf.buffer@.subrange(0, image_size as int) =~= img);
                let n = dst_buf.offset;
                dst_buf.buffer.truncate(n);
                dst_buf.buffer.push(0x3b);
                assert(dst_buf.buffer@ =~= head + img + seq![0x3bu8]);
                return Some(dst_buf.buffer);
            }
        } else if b0 == 0x21 {
            let b1 = match src_buf.get_byte(1) {
                Some(b) => b,
                None => {
                    return None;
                },
            };
            if b1 == 0xf9 {
                if image_buffered {
                    image_buf.offset = 0;
                    image_buffered = false;
                    assert(image_buf.buffer@.subrange(0, 0) =~= Seq::<u8>::empty());
                }
                let ghost base = image_buf.buffer@.subrange(0, image_buf.offset as int);
                if image_buf.copy_from(&mut src_buf, 8).is_err() {
                    return None;
                }
                proof {
                    img = base + d.subrange(pos as int, pos + 8);
                }
            } else if b1 == 0xff || b1 == 0xfe || b1 == 0x01 {
                let k: usize = if b1 == 0xff {
                    14
                } else if b1 == 0xfe {
                    2
                } else {
                    15
                };
                src_buf.offset = pos + k;
                if src_buf.offset >= src_buf.size || src_buf.skip_data_block().is_err() {
                    return None;
                }
                proof {
                    lemma_skip_bounds(d, pos + k);
                }
            } else {
                return None;
            }
        } else {
            return None;
        }
    }
    None
}

/// Deanimate a GIF: `mode` "first" keeps the first image, anything else the
/// last one.  `None` for empty data, data that is not a GIF, or a malformed
/// GIF.
pub fn deanimate_gif(body: &[u8], mode: &str) -> (r: Option<Vec<u8>>)
    requires
        body@.len() <= usize::MAX / 4,
    ensures
        match (r, deanimated(body@, mode@ == "first"@)) {
            (Some(v), Some(w)) => v@ == w,
            (None, None) => true,
            _ => false,
        },
{
    if body.len() == 0 {
        return None;
    }
    if !has_signature(body) {
        return None;
    }
    let m = chars_of(mode);
    let f = chars_of("first");
    let get_first = seq_eq(&m, &f);
    gif_deanimate(body, get_first)
}

} // verus!
