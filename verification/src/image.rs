//! The sparse image builder: accumulates decoded records into one flat,
//! address-ordered byte image. Gaps between the end of data written so far
//! and a record's start address are filled with zero bytes; addresses written
//! twice keep the last writer's byte.

use vstd::prelude::*;

verus! {

/// The image after placing `data` at `addr` over `img`: bytes below the
/// image's old end keep their value unless the record overwrites them, the
/// gap between the old end and `addr` (if any) is zero-filled, and the image
/// ends at the record's end or the old end, whichever is higher.
pub open spec fn write_at(img: Seq<u8>, addr: int, data: Seq<u8>) -> Seq<u8>
    recommends
        addr >= 0,
{
    let end = if addr + data.len() > img.len() {
        addr + data.len()
    } else {
        img.len() as int
    };
    Seq::new(end as nat, |i: int|
        if addr <= i < addr + data.len() {
            data[i - addr]
        } else if i < img.len() {
            img[i]
        } else {
            0u8
        }
    )
}

/// A byte-addressable image under construction. Its cursor — the end of the
/// highest write so far — is the length of the buffer itself.
pub struct Image {
    bytes: Vec<u8>,
}

impl View for Image {
    type V = Seq<u8>;

    closed spec fn view(&self) -> Seq<u8> {
        self.bytes@
    }
}

impl Image {
    /// An empty image: no address has been written.
    pub fn new() -> (r: Image)
        ensures
            r@ == Seq::<u8>::empty(),
    {
        Image { bytes: Vec::new() }
    }

    /// The current cursor: one past the highest address written.
    pub fn end(&self) -> (r: usize)
        ensures
            r == self@.len(),
    {
        self.bytes.len()
    }

    /// Places one record's data at its address, zero-filling any gap and
    /// overwriting any previously written bytes in that range.
    pub fn write_record(&mut self, addr: usize, data: &[u8])
        requires
            addr + data@.len() <= usize::MAX,
        ensures
            final(self)@ == write_at(old(self)@, addr as int, data@),
    {
        let ghost target = write_at(self.bytes@, addr as int, data@);
        let dlen = data.len();
        let old_len = self.bytes.len();
        let new_len = if addr + dlen > old_len {
            addr + dlen
        } else {
            old_len
        };
        let mut out: Vec<u8> = Vec::new();
        let mut i: usize = 0;
        while i < new_len
            invariant
                i <= new_len,
                dlen == data@.len(),
                old_len == self.bytes@.len(),
                new_len == if addr + dlen > old_len {
                    addr + dlen as int
                } else {
                    old_len as int
                },
                addr + dlen <= usize::MAX,
                target == write_at(self.bytes@, addr as int, data@),
                target.len() == new_len,
                out@ =~= target.take(i as int),
            decreases new_len - i,
        {
            let b: u8 = if addr <= i && i < addr + dlen {
                data[i - addr]
            } else if i < old_len {
                self.bytes[i]
            } else {
                0
            };
            out.push(b);
            proof {
                assert(out@ =~= target.take(i + 1));
            }
            i = i + 1;
        }
        proof {
            assert(out@ =~= target);
        }
        self.bytes = out;
    }

    /// Hands the finished image over as the flat output bytes.
    pub fn into_bytes(self) -> (r: Vec<u8>)
        ensures
            r@ == self@,
    {
        self.bytes
    }
}

} // verus!
