//! Chunked imaging primitives: planning byte ranges, hashing them chunk
//! by chunk, and streaming an image into a device buffer, with
//! cooperative progress and cancellation.
//!
//! The device is modelled as in-memory bytes; callers that talk to raw
//! devices read and write those bytes at the edge.

use vstd::prelude::*;

use crate::digest::{sha256_hex, sha256_hex_of};
use crate::errors::{ErrorKind, ForgeError};

verus! {

/// One contiguous byte range of a plan.
#[derive(Clone, Copy, Debug, PartialEq, Eq, Structural)]
pub struct Chunk {
    pub index: u64,
    pub offset: u64,
    pub size: u64,
}

/// An ordered cover of `total` bytes by `chunk_size_bytes`-sized chunks,
/// the last possibly smaller.
#[derive(Clone, Debug)]
pub struct ChunkPlan {
    pub chunk_size_bytes: u64,
    pub chunks: Vec<Chunk>,
}

/// A progress event during chunked hashing.
#[derive(Clone, Copy, Debug)]
pub struct HashProgress {
    pub chunk_index: u64,
    pub total_chunks: u64,
    pub bytes_hashed: u64,
    pub total_bytes: u64,
}

/// A synchronous observer of hashing progress; returning `false` requests
/// cancellation at the next chunk boundary.
pub trait ProgressObserver {
    fn on_progress(&mut self, progress: HashProgress) -> bool;
}

/// A progress event during chunked writing.
#[derive(Clone, Copy, Debug)]
pub struct WriteProgress {
    pub bytes_written: u64,
    pub total_bytes: u64,
    pub chunk_index: u64,
    pub total_chunks: u64,
}

/// A synchronous observer of write progress; returning `false` requests
/// cancellation at the next chunk boundary.
pub trait WriteObserver {
    fn on_progress(&mut self, progress: WriteProgress) -> bool;
}

/// What streaming an image produced: byte counts, the stream digest, and
/// the outcome of optional read-back verification.
#[derive(Clone, Debug)]
pub struct WriteResult {
    pub bytes_written: u64,
    pub total_bytes: u64,
    pub sha256: String,
    pub verify_ok: Option<bool>,
}

/// The chunks covering `offset..total` with `index` as the first index.
pub open spec fn plan_from(total: u64, cs: u64, offset: u64, index: u64) -> Seq<Chunk>
    decreases total - offset,
{
    if offset >= total || cs == 0 {
        Seq::empty()
    } else {
        let size = if total - offset < cs {
            (total - offset) as u64
        } else {
            cs
        };
        seq![Chunk { index, offset, size }] + plan_from(
            total,
            cs,
            (offset + size) as u64,
            ((index + 1) as u64),
        )
    }
}

/// The whole plan for `total` bytes in chunks of `cs`.
pub open spec fn plan_seq(total: u64, cs: u64) -> Seq<Chunk> {
    plan_from(total, cs, 0, 0)
}

/// The sum of the chunk sizes of `s`.
pub open spec fn sum_sizes(s: Seq<Chunk>) -> int
    decreases s.len(),
{
    if s.len() == 0 {
        0
    } else {
        sum_sizes(s.drop_last()) + s.last().size
    }
}

/// A plan's chunks cover exactly the remaining bytes: their sizes sum to
/// `total - offset`.
pub proof fn lemma_plan_sizes_sum(total: u64, cs: u64, offset: u64, index: u64)
    requires
        cs > 0,
        offset <= total,
    ensures
        sum_sizes(plan_from(total, cs, offset, index)) == total - offset,
    decreases total - offset,
{
    let p = plan_from(total, cs, offset, index);
    if offset >= total {
        assert(p.len() == 0);
    } else {
        let size = if total - offset < cs {
            (total - offset) as u64
        } else {
            cs
        };
        let rest = plan_from(total, cs, (offset + size) as u64, ((index + 1) as u64));
        lemma_plan_sizes_sum(total, cs, (offset + size) as u64, ((index + 1) as u64));
        if rest.len() == 0 {
            assert(p.drop_last() =~= Seq::<Chunk>::empty());
            assert(p.last() == Chunk { index, offset, size });
        } else {
            assert(p.last() == rest.last());
            assert(p.drop_last() =~= seq![Chunk { index, offset, size }] + rest.drop_last());
            lemma_sum_cons(Chunk { index, offset, size }, rest.drop_last());
        }
    }
}

/// Summing after prepending one chunk adds that chunk's size.
proof fn lemma_sum_cons(c: Chunk, s: Seq<Chunk>)
    ensures
        sum_sizes(seq![c] + s) == c.size + sum_sizes(s),
    decreases s.len(),
{
    let w = seq![c] + s;
    assert(w.len() == 1 + s.len());
    if s.len() == 0 {
        assert(w.drop_last() =~= Seq::<Chunk>::empty());
        assert(w.last() == c);
        assert(sum_sizes(w) == sum_sizes(w.drop_last()) + w.last().size);
        assert(sum_sizes(Seq::<Chunk>::empty()) == 0);
        assert(sum_sizes(s) == 0);
    } else {
        assert(w.drop_last() =~= seq![c] + s.drop_last());
        assert(w.last() == s.last());
        lemma_sum_cons(c, s.drop_last());
        assert(sum_sizes(w) == sum_sizes(w.drop_last()) + w.last().size);
        assert(sum_sizes(s) == sum_sizes(s.drop_last()) + s.last().size);
    }
}

/// Each chunk of a plan sits where the ones before it end: chunk `j` has
/// index `index + j`, starts at `offset + j·cs`, spans `min(cs, what is
/// left)`, and is never empty.
pub proof fn lemma_plan_shape(total: u64, cs: u64, offset: u64, index: u64)
    requires
        cs > 0,
        offset <= total,
        index * cs == offset,
    ensures
        forall|j: int|
            0 <= j < plan_from(total, cs, offset, index).len() ==> {
                let c = #[trigger] plan_from(total, cs, offset, index)[j];
                &&& c.index == index + j
                &&& c.offset == offset + j * cs
                &&& c.size == (if total - c.offset < cs {
                    total - c.offset
                } else {
                    cs as int
                })
                &&& 0 < c.size
                &&& c.offset + c.size <= total
            },
    decreases total - offset,
{
    let p = plan_from(total, cs, offset, index);
    if offset < total {
        let size = if total - offset < cs {
            (total - offset) as u64
        } else {
            cs
        };
        let next_offset = (offset + size) as u64;
        assert(index <= index * cs) by (nonlinear_arith)
            requires
                cs >= 1,
                index >= 0,
        ;
        assert(index + 1 <= u64::MAX);
        if next_offset < total {
            assert(size == cs);
            assert((index + 1) * cs == index * cs + cs) by (nonlinear_arith);
            lemma_plan_shape(total, cs, next_offset, (index + 1) as u64);
        } else {
            assert(plan_from(total, cs, next_offset, ((index + 1) as u64)).len() == 0);
        }
        let rest = plan_from(total, cs, next_offset, ((index + 1) as u64));
        assert forall|j: int| 0 <= j < p.len() implies {
            let c = #[trigger] p[j];
            &&& c.index == index + j
            &&& c.offset == offset + j * cs
            &&& c.size == (if total - c.offset < cs {
                total - c.offset
            } else {
                cs as int
            })
            &&& 0 < c.size
            &&& c.offset + c.size <= total
        } by {
            if j == 0 {
                assert(p[0] == Chunk { index, offset, size });
                assert(0 * cs == 0) by (nonlinear_arith);
            } else {
                assert(p[j] == rest[j - 1]);
                if next_offset < total {
                    assert(rest[j - 1].offset == next_offset + (j - 1) * cs);
                    assert(next_offset + (j - 1) * cs == offset + j * cs) by (nonlinear_arith)
                        requires
                            next_offset == offset + cs,
                    ;
                    assert(rest[j - 1].index == index + 1 + (j - 1));
                } else {
                    assert(rest.len() == 0);
                }
            }
        }
    }
}

/// Cover `total_size` bytes with chunks of `chunk_size_bytes`; with a
/// zero chunk size the plan is empty.
pub fn make_chunk_plan(total_size: u64, chunk_size_bytes: u64) -> (r: ChunkPlan)
    ensures
        r.chunk_size_bytes == chunk_size_bytes,
        r.chunks@ == plan_seq(total_size, chunk_size_bytes),
{
    let mut chunks: Vec<Chunk> = Vec::new();
    if chunk_size_bytes == 0 {
        assert(plan_seq(total_size, 0) =~= Seq::<Chunk>::empty());
        return ChunkPlan { chunk_size_bytes, chunks };
    }

    let mut offset: u64 = 0;
    let mut index: u64 = 0;
    while offset < total_size
        invariant
            chunk_size_bytes > 0,
            offset <= total_size,
            index <= offset,
            chunks@.len() == index,
            plan_seq(total_size, chunk_size_bytes) == chunks@ + plan_from(
                total_size,
                chunk_size_bytes,
                offset,
                index,
            ),
        decreases total_size - offset,
    {
        let remaining = total_size - offset;
        let size = if remaining < chunk_size_bytes {
            remaining
        } else {
            chunk_size_bytes
        };
        let c = Chunk { index, offset, size };
        let ghost prev = chunks@;
        chunks.push(c);
        proof {
            let rest = plan_from(total_size, chunk_size_bytes, offset, index);
            let next = plan_from(
                total_size,
                chunk_size_bytes,
                (offset + size) as u64,
                ((index + 1) as u64),
            );
            assert(rest == seq![c] + next);
            assert(prev + rest =~= chunks@ + next);
        }
        offset = offset + size;
        index = index + 1;
    }
    proof {
        assert(plan_from(total_size, chunk_size_bytes, offset, index) =~= Seq::<Chunk>::empty());
        assert(plan_seq(total_size, chunk_size_bytes) =~= chunks@);
    }
    ChunkPlan { chunk_size_bytes, chunks }
}

/// A copy of `data[start..end]`.
pub fn bytes_range(data: &Vec<u8>, start: usize, end: usize) -> (r: Vec<u8>)
    requires
        start <= end <= data@.len(),
    ensures
        r@ == data@.subrange(start as int, end as int),
{
    let mut out: Vec<u8> = Vec::new();
    let mut i: usize = start;
    while i < end
        invariant
            start <= i <= end <= data@.len(),
            out@ == data@.subrange(start as int, i as int),
        decreases end - i,
    {
        out.push(data[i]);
        proof {
            assert(out@ =~= data@.subrange(start as int, i as int + 1));
        }
        i = i + 1;
    }
    proof {
        assert(out@ =~= data@.subrange(start as int, end as int));
    }
    out
}

/// The hex SHA-256 of the bytes a chunk covers.
pub open spec fn chunk_hash_of(data: Seq<u8>, c: Chunk) -> Seq<char> {
    sha256_hex_of(data.subrange(c.offset as int, c.offset + c.size))
}

/// The hash list a full run over `data` yields, one `(index, hex digest)`
/// pair per chunk, at most `limit` of them.
pub open spec fn hashes_ok(
    data: Seq<u8>,
    total: u64,
    cs: u64,
    limit: int,
    r: Seq<(u64, String)>,
) -> bool {
    let p = plan_seq(total, cs);
    &&& r.len() == (if p.len() <= limit {
        p.len() as int
    } else {
        limit
    })
    &&& forall|i: int|
        0 <= i < r.len() ==> (#[trigger] r[i]).0 == p[i].index && r[i].1@ == chunk_hash_of(
            data,
            p[i],
        )
}

/// Hash a device image chunk by chunk, reporting progress; `data` is the
/// device's contents.
///
/// With a positive chunk size the call either returns the per-chunk hex
/// digests — exactly those of `data`'s chunk ranges — or, when the
/// observer asked to stop, a `Cancelled` error. A zero chunk size is
/// refused as a `Precondition`.
pub fn hash_device_readonly_with_progress<O: ProgressObserver>(
    data: &Vec<u8>,
    total_size: u64,
    chunk_size: u64,
    max_chunks: Option<u64>,
    observer: &mut O,
) -> (r: Result<Vec<(u64, String)>, ForgeError>)
    requires
        total_size <= data@.len(),
    ensures
        chunk_size == 0 ==> (r matches Err(e) && e.kind == ErrorKind::Precondition && e.message@
            == "chunk_size must be greater than zero"@),
        r matches Ok(v) ==> chunk_size > 0 && hashes_ok(
            data@,
            total_size,
            chunk_size,
            match max_chunks {
                Some(m) => m as int,
                None => plan_seq(total_size, chunk_size).len() as int,
            },
            v@,
        ),
        chunk_size > 0 ==> (r matches Err(e) ==> e.kind == ErrorKind::Cancelled),
{
    if chunk_size == 0 {
        return Err(ForgeError::new(ErrorKind::Precondition, "chunk_size must be greater than zero"));
    }
    let data_len: usize = data.len();
    assert(data@.len() <= usize::MAX);
    let plan = make_chunk_plan(total_size, chunk_size);
    proof {
        lemma_plan_shape(total_size, chunk_size, 0, 0);
    }
    let total_chunks = plan.chunks.len() as u64;
    let ghost limit_spec: int = match max_chunks {
        Some(m) => m as int,
        None => plan_seq(total_size, chunk_size).len() as int,
    };
    let limit: usize = match max_chunks {
        Some(m) => {
            if m <= plan.chunks.len() as u64 {
                m as usize
            } else {
                plan.chunks.len()
            }
        },
        None => plan.chunks.len(),
    };
    assert(limit == if plan_seq(total_size, chunk_size).len() <= limit_spec {
        plan_seq(total_size, chunk_size).len() as int
    } else {
        limit_spec
    });
    let mut results: Vec<(u64, String)> = Vec::new();
    let mut bytes_hashed: u64 = 0;
    let mut i: usize = 0;
    while i < limit
        invariant
            chunk_size > 0,
            total_size <= data@.len(),
            data@.len() <= usize::MAX,
            plan.chunks@ == plan_seq(total_size, chunk_size),
            total_chunks == plan.chunks@.len(),
            limit <= plan.chunks@.len(),
            i <= limit,
            results@.len() == i,
            bytes_hashed <= total_size,
            forall|j: int|
                0 <= j < plan.chunks@.len() ==> {
                    let c = #[trigger] plan.chunks@[j];
                    &&& c.index == j
                    &&& c.offset + c.size <= total_size
                    &&& 0 < c.size
                },
            forall|j: int|
                0 <= j < i ==> (#[trigger] results@[j]).0 == plan.chunks@[j].index
                    && results@[j].1@ == chunk_hash_of(data@, plan.chunks@[j]),
        decreases limit - i,
    {
        let chunk = plan.chunks[i];
        proof {
            assert(chunk.offset + chunk.size <= total_size);
        }
        let start = chunk.offset as usize;
        let end = (chunk.offset + chunk.size) as usize;
        proof {
            assert(start == chunk.offset);
            assert(end == chunk.offset + chunk.size);
        }
        let piece = bytes_range(data, start, end);
        let hash = sha256_hex(&piece);
        results.push((chunk.index, hash));

        bytes_hashed = if total_size - bytes_hashed < chunk.size {
            total_size
        } else {
            bytes_hashed + chunk.size
        };
        let progress = HashProgress {
            chunk_index: chunk.index,
            total_chunks,
            bytes_hashed,
            total_bytes: total_size,
        };
        if !observer.on_progress(progress) {
            return Err(ForgeError::new(ErrorKind::Cancelled, "hash operation cancelled"));
        }
        i = i + 1;
    }
    Ok(results)
}

/// Hash a device image chunk by chunk; `data` is the device's contents.
///
/// Succeeds exactly when `chunk_size` is positive, with the per-chunk hex
/// digests of `data`'s chunk ranges.
pub fn hash_device_readonly(
    data: &Vec<u8>,
    total_size: u64,
    chunk_size: u64,
    max_chunks: Option<u64>,
) -> (r: Result<Vec<(u64, String)>, ForgeError>)
    requires
        total_size <= data@.len(),
    ensures
        r is Ok <==> chunk_size > 0,
        r matches Err(e) ==> e.message@ == "chunk_size must be greater than zero"@,
        r matches Ok(v) ==> hashes_ok(
            data@,
            total_size,
            chunk_size,
            match max_chunks {
                Some(m) => m as int,
                None => plan_seq(total_size, chunk_size).len() as int,
            },
            v@,
        ),
        r matches Err(e) ==> e.kind == ErrorKind::Precondition,
{
    if chunk_size == 0 {
        return Err(ForgeError::new(ErrorKind::Precondition, "chunk_size must be greater than zero"));
    }
    let data_len: usize = data.len();
    assert(data@.len() <= usize::MAX);
    let plan = make_chunk_plan(total_size, chunk_size);
    proof {
        lemma_plan_shape(total_size, chunk_size, 0, 0);
    }
    let ghost limit_spec: int = match max_chunks {
        Some(m) => m as int,
        None => plan_seq(total_size, chunk_size).len() as int,
    };
    let limit: usize = match max_chunks {
        Some(m) => {
            if m <= plan.chunks.len() as u64 {
                m as usize
            } else {
                plan.chunks.len()
            }
        },
        None => plan.chunks.len(),
    };
    assert(limit == if plan_seq(total_size, chunk_size).len() <= limit_spec {
        plan_seq(total_size, chunk_size).len() as int
    } else {
        limit_spec
    });
    let mut results: Vec<(u64, String)> = Vec::new();
    let mut i: usize = 0;
    while i < limit
        invariant
            chunk_size > 0,
            total_size <= data@.len(),
            data@.len() <= usize::MAX,
            plan.chunks@ == plan_seq(total_size, chunk_size),
            limit <= plan.chunks@.len(),
            i <= limit,
            results@.len() == i,
            forall|j: int|
                0 <= j < plan.chunks@.len() ==> {
                    let c = #[trigger] plan.chunks@[j];
                    &&& c.index == j
                    &&& c.offset + c.size <= total_size
                    &&& 0 < c.size
                },
            forall|j: int|
                0 <= j < i ==> (#[trigger] results@[j]).0 == plan.chunks@[j].index
                    && results@[j].1@ == chunk_hash_of(data@, plan.chunks@[j]),
        decreases limit - i,
    {
        let chunk = plan.chunks[i];
        proof {
            assert(chunk.offset + chunk.size <= total_size);
        }
        let start = chunk.offset as usize;
        let end = (chunk.offset + chunk.size) as usize;
        proof {
            assert(start == chunk.offset);
            assert(end == chunk.offset + chunk.size);
        }
        let piece = bytes_range(data, start, end);
        let hash = sha256_hex(&piece);
        results.push((chunk.index, hash));
        i = i + 1;
    }
    Ok(results)
}

/// Hash a raw physical drive chunk by chunk; `data` is the drive's
/// contents as read back. The contract is that of `hash_device_readonly`.
pub fn hash_disk_readonly_physicaldrive(
    data: &Vec<u8>,
    total_size: u64,
    chunk_size: u64,
    max_chunks: Option<u64>,
) -> (r: Result<Vec<(u64, String)>, ForgeError>)
    requires
        total_size <= data@.len(),
    ensures
        r is Ok <==> chunk_size > 0,
        r matches Err(e) ==> e.message@ == "chunk_size must be greater than zero"@,
        r matches Ok(v) ==> hashes_ok(
            data@,
            total_size,
            chunk_size,
            match max_chunks {
                Some(m) => m as int,
                None => plan_seq(total_size, chunk_size).len() as int,
            },
            v@,
        ),
        r matches Err(e) ==> e.kind == ErrorKind::Precondition,
{
    hash_device_readonly(data, total_size, chunk_size, max_chunks)
}

/// Hash a raw physical drive with progress reporting; the contract is
/// that of `hash_device_readonly_with_progress`.
pub fn hash_disk_readonly_physicaldrive_with_progress<O: ProgressObserver>(
    data: &Vec<u8>,
    total_size: u64,
    chunk_size: u64,
    max_chunks: Option<u64>,
    observer: &mut O,
) -> (r: Result<Vec<(u64, String)>, ForgeError>)
    requires
        total_size <= data@.len(),
    ensures
        chunk_size == 0 ==> (r matches Err(e) && e.kind == ErrorKind::Precondition && e.message@
            == "chunk_size must be greater than zero"@),
        r matches Ok(v) ==> chunk_size > 0 && hashes_ok(
            data@,
            total_size,
            chunk_size,
            match max_chunks {
                Some(m) => m as int,
                None => plan_seq(total_size, chunk_size).len() as int,
            },
            v@,
        ),
        chunk_size > 0 ==> (r matches Err(e) ==> e.kind == ErrorKind::Cancelled),
{
    hash_device_readonly_with_progress(data, total_size, chunk_size, max_chunks, observer)
}

/// What the device bytes must be after `image` was streamed onto them.
pub open spec fn written_device(old_device: Seq<u8>, image: Seq<u8>) -> Seq<u8> {
    if old_device.len() <= image.len() {
        image
    } else {
        image + old_device.skip(image.len() as int)
    }
}

/// Stream `image` into `device` in chunks, reporting progress.
///
/// With a positive chunk size the call either overwrites the front of
/// `device` with the whole image — extending it if it was shorter — and
/// returns the byte count, the image's hex digest and, when asked, the
/// read-back verification verdict; or it returns `Cancelled` because the
/// observer asked to stop, leaving a prefix of the image written. A zero
/// chunk size is refused as a `Precondition` and changes nothing.
pub fn write_image_to_device_with_progress<O: WriteObserver>(
    image: &Vec<u8>,
    device: &mut Vec<u8>,
    chunk_size: u64,
    verify: bool,
    observer: &mut O,
) -> (r: Result<WriteResult, ForgeError>)
    requires
        old(device)@.len() < u64::MAX,
        image@.len() < u64::MAX,
    ensures
        chunk_size == 0 ==> (r matches Err(e) && e.kind == ErrorKind::Precondition
            && final(device)@ == old(device)@),
        r matches Ok(w) ==> {
            &&& chunk_size > 0
            &&& final(device)@ == written_device(old(device)@, image@)
            &&& w.bytes_written == image@.len()
            &&& w.total_bytes == image@.len()
            &&& w.sha256@ == sha256_hex_of(image@)
            &&& w.verify_ok == (if verify {
                Some(true)
            } else {
                None::<bool>
            })
        },
        chunk_size > 0 ==> (r matches Err(e) ==> e.kind == ErrorKind::Cancelled),
{
    if chunk_size == 0 {
        return Err(ForgeError::new(ErrorKind::Precondition, "chunk_size must be greater than zero"));
    }
    let total_bytes = image.len() as u64;
    assert(image@.len() <= usize::MAX);
    let plan = make_chunk_plan(total_bytes, chunk_size);
    proof {
        lemma_plan_shape(total_bytes, chunk_size, 0, 0);
    }
    let total_chunks = plan.chunks.len() as u64;
    let mut bytes_written: u64 = 0;
    let mut i: usize = 0;
    while i < plan.chunks.len()
        invariant
            chunk_size > 0,
            total_bytes == image@.len(),
            image@.len() <= usize::MAX,
            old(device)@.len() < u64::MAX,
            image@.len() < u64::MAX,
            plan.chunks@ == plan_seq(total_bytes, chunk_size),
            i <= plan.chunks@.len(),
            forall|j: int|
                0 <= j < plan.chunks@.len() ==> {
                    let c = #[trigger] plan.chunks@[j];
                    &&& c.index == j
                    &&& c.offset == j * chunk_size
                    &&& c.size == (if total_bytes - c.offset < chunk_size {
                        total_bytes - c.offset
                    } else {
                        chunk_size as int
                    })
                    &&& c.offset + c.size <= total_bytes
                    &&& 0 < c.size
                },
            bytes_written == (if i < plan.chunks@.len() {
                plan.chunks@[i as int].offset as int
            } else {
                total_bytes as int
            }),
            device@.len() == (if old(device)@.len() <= bytes_written {
                bytes_written as int
            } else {
                old(device)@.len() as int
            }),
            forall|j: int| 0 <= j < bytes_written ==> device@[j] == image@[j],
            forall|j: int|
                bytes_written <= j < device@.len() ==> device@[j] == old(device)@[j],
        decreases plan.chunks@.len() - i,
    {
        let chunk = plan.chunks[i];
        let mut k: usize = 0;
        proof {
            assert(chunk.offset == bytes_written);
        }
        proof {
            assert(chunk.size <= usize::MAX);
        }
        while k < chunk.size as usize
            invariant
                chunk.offset + chunk.size <= image@.len(),
                image@.len() <= usize::MAX,
                old(device)@.len() < u64::MAX,
                image@.len() < u64::MAX,
                k <= chunk.size,
                chunk == plan.chunks@[i as int],
                device@.len() == (if old(device)@.len() <= chunk.offset + k {
                    chunk.offset + k
                } else {
                    old(device)@.len() as int
                }),
                forall|j: int| 0 <= j < chunk.offset + k ==> device@[j] == image@[j],
                forall|j: int|
                    chunk.offset + k <= j < device@.len() ==> device@[j] == old(device)@[j],
            decreases chunk.size - k,
        {
            proof {
                assert(chunk.offset + k < image@.len());
            }
            let pos = (chunk.offset as usize) + k;
            proof {
                assert(pos == chunk.offset + k);
            }
            let b = image[pos];
            if pos < device.len() {
                device.set(pos, b);
            } else {
                device.push(b);
            }
            k = k + 1;
        }
        bytes_written = bytes_written + chunk.size;
        proof {
            if i + 1 < plan.chunks@.len() {
                assert(plan.chunks@[i as int + 1].offset == (i + 1) * chunk_size);
                assert((i + 1) * chunk_size == i * chunk_size + chunk_size) by (nonlinear_arith);
                assert(chunk.size == chunk_size);
            } else {
                assert(chunk.offset + chunk.size == total_bytes) by {
                    lemma_plan_last(total_bytes, chunk_size, 0, 0);
                    assert(chunk == plan.chunks@.last());
                }
            }
        }
        let progress = WriteProgress {
            bytes_written,
            total_bytes,
            chunk_index: chunk.index,
            total_chunks,
        };
        if !observer.on_progress(progress) {
            return Err(ForgeError::new(ErrorKind::Cancelled, "write operation cancelled"));
        }
        i = i + 1;
    }
    proof {
        if plan.chunks@.len() == 0 {
            assert(plan_from(total_bytes, chunk_size, 0, 0).len() == 0);
            assert(total_bytes == 0);
        }
        assert(bytes_written == total_bytes);
        assert(device@ =~= written_device(old(device)@, image@));
    }

    let sha256 = sha256_hex(image);

    let verify_ok: Option<bool> = if verify {
        let readback = bytes_range(device, 0, total_bytes as usize);
        proof {
            assert(readback@ =~= image@);
        }
        let device_hash = sha256_hex(&readback);
        Some(device_hash == sha256)
    } else {
        None
    };

    Ok(WriteResult { bytes_written, total_bytes, sha256, verify_ok })
}

/// A non-empty plan's last chunk ends exactly at `total`.
pub proof fn lemma_plan_last(total: u64, cs: u64, offset: u64, index: u64)
    requires
        cs > 0,
        offset < total,
    ensures
        plan_from(total, cs, offset, index).len() > 0,
        plan_from(total, cs, offset, index).last().offset + plan_from(
            total,
            cs,
            offset,
            index,
        ).last().size == total,
    decreases total - offset,
{
    let p = plan_from(total, cs, offset, index);
    let size = if total - offset < cs {
        (total - offset) as u64
    } else {
        cs
    };
    let next_offset = (offset + size) as u64;
    let rest = plan_from(total, cs, next_offset, ((index + 1) as u64));
    if next_offset < total {
        lemma_plan_last(total, cs, next_offset, ((index + 1) as u64));
        assert(p.last() == rest.last());
    } else {
        assert(rest.len() == 0);
        assert(p.last() == Chunk { index, offset, size });
    }
}

/// Stream `image` into `device` in chunks.
///
/// Succeeds exactly when `chunk_size` is positive; then the front of
/// `device` holds the whole image and the result carries the image's hex
/// digest, with `verify_ok == Some(true)` when verification was asked.
pub fn write_image_to_device(
    image: &Vec<u8>,
    device: &mut Vec<u8>,
    chunk_size: u64,
    verify: bool,
) -> (r: Result<WriteResult, ForgeError>)
    requires
        old(device)@.len() < u64::MAX,
        image@.len() < u64::MAX,
    ensures
        r is Ok <==> chunk_size > 0,
        r matches Err(e) ==> e.message@ == "chunk_size must be greater than zero"@,
        chunk_size == 0 ==> final(device)@ == old(device)@,
        r matches Ok(w) ==> {
            &&& final(device)@ == written_device(old(device)@, image@)
            &&& w.bytes_written == image@.len()
            &&& w.total_bytes == image@.len()
            &&& w.sha256@ == sha256_hex_of(image@)
            &&& w.verify_ok == (if verify {
                Some(true)
            } else {
                None::<bool>
            })
        },
        r matches Err(e) ==> e.kind == ErrorKind::Precondition,
{
    if chunk_size == 0 {
        return Err(ForgeError::new(ErrorKind::Precondition, "chunk_size must be greater than zero"));
    }
    let total_bytes = image.len() as u64;
    assert(image@.len() <= usize::MAX);
    let mut i: usize = 0;
    while i < image.len()
        invariant
            image@.len() <= usize::MAX,
            old(device)@.len() < u64::MAX,
            i <= image@.len(),
            device@.len() == (if old(device)@.len() <= i {
                i as int
            } else {
                old(device)@.len() as int
            }),
            forall|j: int| 0 <= j < i ==> device@[j] == image@[j],
            forall|j: int| i <= j < device@.len() ==> device@[j] == old(device)@[j],
        decreases image@.len() - i,
    {
        let b = image[i];
        if i < device.len() {
            device.set(i, b);
        } else {
            device.push(b);
        }
        i = i + 1;
    }
    proof {
        assert(device@ =~= written_device(old(device)@, image@));
    }

    let sha256 = sha256_hex(image);

    let verify_ok: Option<bool> = if verify {
        let readback = bytes_range(device, 0, image.len());
        proof {
            assert(readback@ =~= image@);
        }
        let device_hash = sha256_hex(&readback);
        Some(device_hash == sha256)
    } else {
        None
    };

    Ok(WriteResult { bytes_written: total_bytes, total_bytes, sha256, verify_ok })
}

/// A plan has exactly the chunks the ceiling division promises:
/// `⌈remaining / cs⌉` of them.
pub proof fn lemma_plan_len(total: u64, cs: u64, offset: u64, index: u64)
    requires
        cs > 0,
        offset <= total,
    ensures
        plan_from(total, cs, offset, index).len() == ((total - offset) + cs - 1) / (cs as int),
    decreases total - offset,
{
    let p = plan_from(total, cs, offset, index);
    let remaining = total - offset;
    if offset >= total {
        assert(p.len() == 0);
        assert((0 + cs - 1) / (cs as int) == 0) by {
            vstd::arithmetic::div_mod::lemma_basic_div(cs - 1, cs as int);
        }
    } else {
        let size = if total - offset < cs {
            (total - offset) as u64
        } else {
            cs
        };
        let next_offset = (offset + size) as u64;
        lemma_plan_len(total, cs, next_offset, ((index + 1) as u64));
        let rest = plan_from(total, cs, next_offset, ((index + 1) as u64));
        assert(p.len() == 1 + rest.len());
        vstd::arithmetic::div_mod::lemma_hoist_over_denominator(
            remaining - 1,
            1,
            cs as nat,
        );
        assert((remaining - 1) / (cs as int) + 1 == (remaining - 1 + 1 * cs) / (cs as int));
        if size == cs {
            assert(rest.len() == ((remaining - cs) + cs - 1) / (cs as int));
            assert(remaining - 1 == (remaining - cs) + cs - 1);
        } else {
            assert(remaining < cs);
            assert(rest.len() == 0);
            assert((remaining - 1) / (cs as int) == 0) by {
                vstd::arithmetic::div_mod::lemma_basic_div(remaining - 1, cs as int);
            }
        }
    }
}

} // verus!
