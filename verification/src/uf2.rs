//! UF2 page assembly.
//!
//! A UF2 container is decoded to a flat image by the `uf2_decode` crate; the
//! image is then split into 256-byte flash pages, the last page zero-padded
//! on the right. The decoder's documented panic case — a block whose target
//! address steps backward past the current write position — is kept out by a
//! verified admission scan that mirrors the decoder's address walk, so the
//! decoder is only invoked where it returns.

use vstd::prelude::*;

use crate::bytes::read_u32_le;
use crate::bytes::spec_u32_at;

verus! {

/// Errors of UF2 page assembly.
#[derive(Debug, Clone, Copy, PartialEq, Eq, Structural)]
pub enum Uf2Error {
    /// A block asks for more than the decoder's padding limit.
    TooMuchPaddingRequired(usize),
    /// A block asks for padding that is not a whole number of words.
    NonWordPaddingSize(usize),
    /// A block declares a payload longer than a block can carry.
    InvalidDataSize(usize),
    /// A block's target address steps backward past the current write
    /// position; the decoder never produces an image for such a container.
    MisorderedBlocks,
}

/// State of the decoder's address walk over the 512-byte blocks.
pub enum Uf2Scan {
    /// The decoder reports an error on an earlier block and returns.
    Stopped,
    /// A block address steps backward: the walk's subtraction would
    /// underflow.
    Backward,
    /// Still decoding: the next write address, once one is set, and the
    /// family id being collected, once one is seen.
    Running { addr: Option<int>, family: Option<u32> },
}

/// Word `word` of block `blk`: a little-endian 32-bit value.
pub open spec fn spec_u32_block(b: Seq<u8>, blk: int, word: int) -> u32 {
    spec_u32_at(b, 512 * blk + 4 * word)
}

/// One step of the decoder's address walk, over block `blk` of `b`.
pub open spec fn spec_scan_step(st: Uf2Scan, b: Seq<u8>, blk: int) -> Uf2Scan {
    match st {
        Uf2Scan::Stopped => st,
        Uf2Scan::Backward => st,
        Uf2Scan::Running { addr, family } => {
            let magic0 = spec_u32_block(b, blk, 0);
            let magic1 = spec_u32_block(b, blk, 1);
            let flags = spec_u32_block(b, blk, 2);
            let new_addr = spec_u32_block(b, blk, 3) as int;
            let data_len = spec_u32_block(b, blk, 4) as int;
            let fam = spec_u32_block(b, blk, 7);
            if magic0 != 0x0A324655 || magic1 != 0x9E5D5157 || flags & 1 != 0 {
                st
            } else if data_len > 476 {
                Uf2Scan::Stopped
            } else {
                let family1 = if flags & 0x2000 != 0 && family is None {
                    Some(fam)
                } else {
                    family
                };
                let reset = addr is None || (flags & 0x2000 != 0 && Some(fam) != family1);
                let family2 = if reset {
                    Some(fam)
                } else {
                    family1
                };
                let base = if reset {
                    new_addr
                } else {
                    addr.unwrap()
                };
                if new_addr < base {
                    Uf2Scan::Backward
                } else if new_addr - base > 10485760 || (new_addr - base) % 4 != 0 {
                    Uf2Scan::Stopped
                } else {
                    Uf2Scan::Running { addr: Some(new_addr + data_len), family: family2 }
                }
            }
        },
    }
}

/// The decoder's address walk after its first `n` blocks.
pub open spec fn spec_scan(b: Seq<u8>, n: nat) -> Uf2Scan
    decreases n,
{
    if n == 0 {
        Uf2Scan::Running { addr: None, family: None }
    } else {
        spec_scan_step(spec_scan(b, (n - 1) as nat), b, n - 1)
    }
}

/// A container is admissible when the decoder's address walk never steps
/// backward: on such input the decoder returns instead of panicking.
pub open spec fn spec_uf2_admissible(b: Seq<u8>) -> bool {
    !(spec_scan(b, b.len() / 512) is Backward)
}

/// Once the walk has stopped or stepped backward, it stays there.
proof fn lemma_scan_absorbing(b: Seq<u8>, k: nat, n: nat)
    requires
        k <= n,
        spec_scan(b, k) is Stopped || spec_scan(b, k) is Backward,
    ensures
        spec_scan(b, n) == spec_scan(b, k),
    decreases n,
{
    if n > k {
        lemma_scan_absorbing(b, k, (n - 1) as nat);
    }
}

/// Runs the decoder's address walk over the complete 512-byte blocks of
/// `bytes` and reports whether the container is admissible.
pub fn uf2_blocks_admissible(bytes: &Vec<u8>) -> (r: bool)
    ensures
        r == spec_uf2_admissible(bytes@),
{
    let len = bytes.len();
    let nblocks = len / 512;
    let mut addr: Option<u64> = None;
    let mut family: Option<u32> = None;
    let mut k: usize = 0;
    while k < nblocks
        invariant
            nblocks == bytes@.len() / 512,
            len == bytes@.len(),
            0 <= k <= nblocks,
            spec_scan(bytes@, k as nat) == (Uf2Scan::Running {
                addr: match addr {
                    Some(a) => Some(a as int),
                    None => None,
                },
                family,
            }),
            addr matches Some(a) ==> a <= 0xFFFFFFFF + 476,
        decreases nblocks - k,
    {
        proof {
            assert(512 * ((k + 1) as int) <= 512 * (bytes@.len() / 512)) by (nonlinear_arith)
                requires
                    k + 1 <= bytes@.len() / 512,
            ;
            assert(512 * (bytes@.len() / 512) <= bytes@.len()) by (nonlinear_arith);
        }
        let base: usize = 512 * k;
        let magic0 = read_u32_le(bytes, base);
        let magic1 = read_u32_le(bytes, base + 4);
        let flags = read_u32_le(bytes, base + 8);
        let new_addr = read_u32_le(bytes, base + 12);
        let data_len = read_u32_le(bytes, base + 16);
        let fam = read_u32_le(bytes, base + 28);
        let ghost st0 = spec_scan(bytes@, k as nat);
        let ghost st1 = spec_scan_step(st0, bytes@, k as int);
        proof {
            assert(spec_scan(bytes@, (k + 1) as nat) == st1);
        }
        if magic0 != 0x0A324655 || magic1 != 0x9E5D5157 || flags & 1 != 0 {
            // block skipped: state unchanged
        } else if data_len > 476 {
            proof {
                lemma_scan_absorbing(bytes@, (k + 1) as nat, bytes@.len() / 512);
            }
            return true;
        } else {
            let family1: Option<u32> = if flags & 0x2000 != 0 && family.is_none() {
                Some(fam)
            } else {
                family
            };
            let family_differs: bool = match family1 {
                Some(f) => f != fam,
                None => true,
            };
            let reset = addr.is_none() || (flags & 0x2000 != 0 && family_differs);
            let family2: Option<u32> = if reset {
                Some(fam)
            } else {
                family1
            };
            let base_addr: u64 = if reset {
                new_addr as u64
            } else {
                match addr {
                    Some(a) => a,
                    None => 0,
                }
            };
            if (new_addr as u64) < base_addr {
                proof {
                    lemma_scan_absorbing(bytes@, (k + 1) as nat, bytes@.len() / 512);
                }
                return false;
            } else if (new_addr as u64) - base_addr > 10485760 || ((new_addr as u64) - base_addr)
                % 4 != 0 {
                proof {
                    lemma_scan_absorbing(bytes@, (k + 1) as nat, bytes@.len() / 512);
                }
                return true;
            } else {
                addr = Some(new_addr as u64 + data_len as u64);
                family = family2;
            }
        }
        k += 1;
    }
    true
}

pub uninterp spec fn uf2_image(b: Seq<u8>) -> Option<Seq<u8>>;

/// Relies on uf2_decode::convert_from_uf2: decodes a UF2 container to its
/// flat image, a function of the input bytes alone; `uf2_image` names that
/// result. The admission scan keeps out the inputs on which the decoder's
/// address subtraction would underflow, so the call returns.
#[verifier::external_body]
fn decode_uf2(bytes: &Vec<u8>) -> (r: Result<Vec<u8>, Uf2Error>)
    requires
        spec_uf2_admissible(bytes@),
    ensures
        r is Ok <==> uf2_image(bytes@) is Some,
        r matches Ok(img) ==> uf2_image(bytes@) == Some(img@),
{
    match uf2_decode::convert_from_uf2(bytes) {
        Ok((img, _families)) => Ok(img),
        Err(uf2_decode::Error::TooMuchPaddingRequired(i)) => Err(
            Uf2Error::TooMuchPaddingRequired(i),
        ),
        Err(uf2_decode::Error::NonWordPaddingSize(i)) => Err(Uf2Error::NonWordPaddingSize(i)),
        Err(uf2_decode::Error::InvalidDataSize(i)) => Err(Uf2Error::InvalidDataSize(i)),
    }
}

/// Number of 256-byte pages an image of `n` bytes fills, the last page
/// partially.
pub open spec fn spec_page_count(n: nat) -> nat {
    (n + 255) / 256
}

/// `pages` is the page decomposition of `img`: every page is exactly 256
/// bytes, page `p` holds the bytes of `img` from offset `256·p` on, and the
/// tail of the last page past the image is zero.
pub open spec fn spec_pages_ok(img: Seq<u8>, pages: Seq<Vec<u8>>) -> bool {
    &&& pages.len() == spec_page_count(img.len())
    &&& forall|p: int| 0 <= p < pages.len() ==> (#[trigger] pages[p])@.len() == 256
    &&& forall|p: int, j: int|
        0 <= p < pages.len() && 0 <= j < 256 ==> #[trigger] pages[p]@[j] == (if 256 * p + j
            < img.len() {
            img[256 * p + j]
        } else {
            0u8
        })
}

/// Decodes a UF2 container and splits the flat image into 256-byte flash
/// pages in address order, the last page zero-padded on the right. Fails
/// exactly where the decoder reports a malformed container: either a
/// backward-stepping block (`MisorderedBlocks`) or one of the decoder's own
/// errors.
pub fn uf2_pages(bytes: Vec<u8>) -> (r: Result<Vec<Vec<u8>>, Uf2Error>)
    ensures
        r is Ok <==> (spec_uf2_admissible(bytes@) && uf2_image(bytes@) is Some),
        r matches Ok(pages) ==> spec_pages_ok(uf2_image(bytes@).unwrap(), pages@),
        !spec_uf2_admissible(bytes@) ==> r == Err::<Vec<Vec<u8>>, Uf2Error>(
            Uf2Error::MisorderedBlocks,
        ),
{
    if !uf2_blocks_admissible(&bytes) {
        return Err(Uf2Error::MisorderedBlocks);
    }
    let img = match decode_uf2(&bytes) {
        Ok(img) => img,
        Err(e) => {
            return Err(e);
        },
    };
    let ghost gimg = img@;
    let len = img.len();
    let mut pages: Vec<Vec<u8>> = Vec::new();
    let mut i: usize = 0;
    while len - i >= 256 && i < len
        invariant
            len == gimg.len(),
            img@ == gimg,
            0 <= i <= len,
            i == 256 * pages@.len(),
            forall|p: int| 0 <= p < pages@.len() ==> (#[trigger] pages@[p])@.len() == 256,
            forall|p: int, j: int|
                0 <= p < pages@.len() && 0 <= j < 256 ==> #[trigger] pages@[p]@[j] == gimg[256
                    * p + j],
        decreases len - i,
    {
        let mut page: Vec<u8> = Vec::new();
        let mut j: usize = 0;
        while j < 256
            invariant
                i + 256 <= len,
                len == gimg.len(),
                img@ == gimg,
                0 <= j <= 256,
                page@ == gimg.subrange(i as int, i + j),
            decreases 256 - j,
        {
            page.push(img[i + j]);
            assert(page@ =~= gimg.subrange(i as int, i + j + 1));
            j += 1;
        }
        pages.push(page);
        i += 256;
    }
    if i < len {
        let mut page: Vec<u8> = Vec::new();
        let mut j: usize = 0;
        while j < len - i
            invariant
                i < len <= i + 256,
                len == gimg.len(),
                img@ == gimg,
                0 <= j <= len - i,
                page@ == gimg.subrange(i as int, i + j),
            decreases len - i - j,
        {
            page.push(img[i + j]);
            assert(page@ =~= gimg.subrange(i as int, i + j + 1));
            j += 1;
        }
        while page.len() < 256
            invariant
                i < len <= i + 256,
                len == gimg.len(),
                page@.len() >= len - i,
                page@.subrange(0, len - i) == gimg.subrange(i as int, len as int),
                page@.len() <= 256,
                forall|q: int| len - i <= q < page@.len() ==> page@[q] == 0u8,
            decreases 256 - page@.len(),
        {
            page.push(0);
            assert(page@.subrange(0, len - i) =~= gimg.subrange(i as int, len as int));
        }
        let ghost gpage = page@;
        pages.push(page);
        proof {
            let pc = pages@.len() as int;
            assert(spec_page_count(gimg.len()) == pc) by (nonlinear_arith)
                requires
                    256 * (pc - 1) == i,
                    i < gimg.len() <= i + 256,
            ;
            assert(gpage.len() == 256);
            assert forall|p: int, j: int|
                0 <= p < pages@.len() && 0 <= j < 256 implies #[trigger] pages@[p]@[j] == (if 256
                * p + j < gimg.len() {
                    gimg[256 * p + j]
                } else {
                    0u8
                }) by {
                if p == pc - 1 {
                    assert(pages@[p]@ == gpage);
                    if j < len - i {
                        assert(gpage[j] == gpage.subrange(0, len - i)[j]);
                    }
                } else {
                    assert(256 * p + j < i);
                }
            };
        }
    } else {
        proof {
            assert(i == len);
            assert(spec_page_count(gimg.len()) == pages@.len()) by (nonlinear_arith)
                requires
                    256 * pages@.len() == gimg.len(),
            ;
            assert forall|p: int, j: int|
                0 <= p < pages@.len() && 0 <= j < 256 implies #[trigger] pages@[p]@[j] == (if 256
                * p + j < gimg.len() {
                    gimg[256 * p + j]
                } else {
                    0u8
                }) by {
                assert(256 * p + j < 256 * pages@.len());
            };
        }
    }
    assert(spec_pages_ok(gimg, pages@));
    Ok(pages)
}


/// The pages cover the image and nothing else: byte `i` of the
/// concatenation of the pages is byte `i` of the image while the image
/// lasts, and zero from there to the end of the last page.
pub proof fn lemma_pages_cover_image(img: Seq<u8>, pages: Seq<Vec<u8>>, i: int)
    requires
        spec_pages_ok(img, pages),
        0 <= i < 256 * pages.len(),
    ensures
        i < img.len() ==> pages[i / 256]@[i % 256] == img[i],
        i >= img.len() ==> pages[i / 256]@[i % 256] == 0u8,
{
    let p = i / 256;
    let j = i % 256;
    assert(0 <= j < 256 && i == 256 * p + j && 0 <= p < pages.len()) by (nonlinear_arith)
        requires
            0 <= i < 256 * pages.len(),
            p == i / 256,
            j == i % 256,
    ;
    assert(pages[p]@[j] == (if 256 * p + j < img.len() {
        img[256 * p + j]
    } else {
        0u8
    }));
}

} // verus!
