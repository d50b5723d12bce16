//! The sync codec: zstd compression of full and delta payloads, with or without a
//! dictionary, and chunking of payloads.
use vstd::prelude::*;
use crate::error::SyncEngineError;
use crate::text::{cat2, is_prefix_of};

verus! {

/// The zstd frame of `data` compressed at `level`.
pub uninterp spec fn zstd_frame(data: Seq<u8>, level: i32) -> Seq<u8>;

/// The content of the zstd frame `data` when it decompresses within `capacity` bytes.
pub uninterp spec fn zstd_content(data: Seq<u8>, capacity: usize) -> Option<Seq<u8>>;

/// `data` compressed by zstd at `level`.
///
/// Calls `zstd::bulk::compress`, which makes a compressor without a dictionary (zstd
/// clamps the level into its range) and compresses into a buffer of zstd's bound for the
/// input size; it fails only when memory runs out. Its output is a function of the data
/// and the level; zstd is lossless, which `zstd_decompress` states.
#[verifier::external_body]
fn zstd_compress(data: &[u8], level: i32) -> (r: Result<Vec<u8>, String>)
    ensures
        r is Ok,
        r matches Ok(v) ==> v@ == zstd_frame(data@, level),
{
    zstd::bulk::compress(data, level).map_err(|e| e.to_string())
}

/// The content of the zstd frame `data`, which must fit in `capacity` bytes, or the
/// error's message.
///
/// Calls `zstd::bulk::decompress`. The outcome is a function of the frame and the
/// capacity; a frame that zstd made from content of at most `capacity` bytes gives that
/// content back.
#[verifier::external_body]
fn zstd_decompress(data: &[u8], capacity: usize) -> (r: Result<Vec<u8>, String>)
    ensures
        match r {
            Ok(v) => zstd_content(data@, capacity) == Some(v@),
            Err(_) => zstd_content(data@, capacity) is None,
        },
        forall|x: Seq<u8>, level: i32| data@ == #[trigger] zstd_frame(x, level) && x.len() <= capacity
            ==> r is Ok && r->Ok_0@ == x,
{
    zstd::bulk::decompress(data, capacity).map_err(|e| e.to_string())
}

/// A zstd compressor loaded with a dictionary.
#[verifier::external_type_specification]
#[verifier::external_body]
pub struct ExCompressor<'a>(zstd::bulk::Compressor<'a>);

/// A zstd decompressor loaded with a dictionary.
#[verifier::external_type_specification]
#[verifier::external_body]
pub struct ExDecompressor<'a>(zstd::bulk::Decompressor<'a>);

/// The zstd frame of `data` compressed at `level` with dictionary `dict`, if compressing
/// with that dictionary succeeds.
pub uninterp spec fn zstd_dict_frame(data: Seq<u8>, level: i32, dict: Seq<u8>) -> Option<Seq<u8>>;

/// Whether zstd loads `dict` into a compressor at `level`.
pub uninterp spec fn zstd_cdict_loads(dict: Seq<u8>, level: i32) -> bool;

/// Whether zstd loads `dict` into a decompressor.
pub uninterp spec fn zstd_ddict_loads(dict: Seq<u8>) -> bool;

/// The content of the zstd frame `data` decompressed with dictionary `dict`, when it
/// decompresses within `capacity` bytes.
pub uninterp spec fn zstd_dict_content(data: Seq<u8>, dict: Seq<u8>, capacity: usize) -> Option<Seq<u8>>;

/// A zstd compressor with the level and dictionary it was loaded with.
struct DictCompressor {
    inner: zstd::bulk::Compressor<'static>,
    level: i32,
    dict: Ghost<Seq<u8>>,
}

/// A zstd decompressor with the dictionary it was loaded with.
struct DictDecompressor {
    inner: zstd::bulk::Decompressor<'static>,
    dict: Ghost<Seq<u8>>,
}

/// A compressor at `level` loaded with `dict`, or the error's message.
///
/// Calls `zstd::bulk::Compressor::with_dictionary`, and keeps the level and the
/// dictionary beside the compressor it gives. Whether the dictionary loads depends on its
/// bytes and the level alone.
#[verifier::external_body]
fn dict_compressor(level: i32, dict: &[u8]) -> (r: Result<DictCompressor, String>)
    ensures
        (r is Ok) == zstd_cdict_loads(dict@, level),
        r matches Ok(c) ==> c.level == level && c.dict@ == dict@,
{
    match zstd::bulk::Compressor::with_dictionary(level, dict) {
        Ok(c) => Ok(DictCompressor { inner: c, level, dict: Ghost(dict@) }),
        Err(e) => Err(e.to_string()),
    }
}

/// `data` compressed by `c`, or the error's message.
///
/// Calls `zstd::bulk::Compressor::compress`, whose outcome is a function of the data and
/// of the level and dictionary the compressor was loaded with.
#[verifier::external_body]
fn compress_with(c: DictCompressor, data: &[u8]) -> (r: Result<Vec<u8>, String>)
    ensures
        match r {
            Ok(v) => zstd_dict_frame(data@, c.level, c.dict@) == Some(v@),
            Err(_) => zstd_dict_frame(data@, c.level, c.dict@) is None,
        },
{
    let mut c = c;
    c.inner.compress(data).map_err(|e| e.to_string())
}

/// A decompressor loaded with `dict`, or the error's message.
///
/// Calls `zstd::bulk::Decompressor::with_dictionary`, and keeps the dictionary beside the
/// decompressor it gives. Whether the dictionary loads depends on its bytes alone.
#[verifier::external_body]
fn dict_decompressor(dict: &[u8]) -> (r: Result<DictDecompressor, String>)
    ensures
        (r is Ok) == zstd_ddict_loads(dict@),
        r matches Ok(d) ==> d.dict@ == dict@,
{
    match zstd::bulk::Decompressor::with_dictionary(dict) {
        Ok(d) => Ok(DictDecompressor { inner: d, dict: Ghost(dict@) }),
        Err(e) => Err(e.to_string()),
    }
}

/// The content of `data` decompressed by `d` within `capacity` bytes, or the error's
/// message.
///
/// Calls `zstd::bulk::Decompressor::decompress`. The outcome is a function of the frame,
/// the dictionary loaded and the capacity; a frame that zstd made with the same
/// dictionary from content of at most `capacity` bytes gives that content back.
#[verifier::external_body]
fn decompress_with(d: DictDecompressor, data: &[u8], capacity: usize) -> (r: Result<Vec<u8>, String>)
    ensures
        match r {
            Ok(v) => zstd_dict_content(data@, d.dict@, capacity) == Some(v@),
            Err(_) => zstd_dict_content(data@, d.dict@, capacity) is None,
        },
        forall|x: Seq<u8>, level: i32| #[trigger] zstd_dict_frame(x, level, d.dict@) == Some(data@) && x.len() <= capacity
            ==> r is Ok && r->Ok_0@ == x,
{
    let mut d = d;
    d.inner.decompress(data, capacity).map_err(|e| e.to_string())
}

/// Compression levels and the chunk size of synchronised payloads.
#[derive(Debug, Clone)]
pub struct SyncCodec {
    pub compression_level_full: i32,
    pub compression_level_delta: i32,
    pub chunk_size: usize,
}

/// The chunks of `data` of `size` bytes each, the last one possibly shorter.
pub open spec fn chunks_of(data: Seq<u8>, size: nat) -> Seq<Seq<u8>>
    recommends
        size > 0,
{
    Seq::new(if data.len() % size == 0 { data.len() / size } else { data.len() / size + 1 },
        |k: int| data.subrange(k * size, if (k + 1) * size <= data.len() { (k + 1) * size } else { data.len() as int }))
}

/// A compression error whose message begins with `prefix`.
pub open spec fn compression_error(e: SyncEngineError, prefix: Seq<char>) -> bool {
    e matches SyncEngineError::Compression(m) && is_prefix_of(prefix, m@)
}

impl SyncCodec {
    /// A codec with the given levels and chunk size.
    pub fn new(compression_level_full: i32, compression_level_delta: i32, chunk_size: usize) -> (r: Self)
        ensures
            r.compression_level_full == compression_level_full,
            r.compression_level_delta == compression_level_delta,
            r.chunk_size == chunk_size,
    {
        SyncCodec { compression_level_full, compression_level_delta, chunk_size }
    }

    fn failure(context: &str, message: &str) -> (e: SyncEngineError)
        ensures
            e matches SyncEngineError::Compression(m) && m@ == context@ + message@,
            compression_error(e, context@),
    {
        proof {
            crate::text::lemma_prefix_of_concat(context@, message@);
        }
        SyncEngineError::Compression(cat2(context, message))
    }

    fn compressed(data: &[u8], level: i32) -> (r: Result<Vec<u8>, SyncEngineError>)
        ensures
            r is Ok,
            r matches Ok(v) ==> v@ == zstd_frame(data@, level),
            r matches Err(e) ==> compression_error(e, "zstd compression error: "@),
    {
        match zstd_compress(data, level) {
            Ok(v) => Ok(v),
            Err(m) => Err(Self::failure("zstd compression error: ", m.as_str())),
        }
    }

    /// `data` compressed at the level for full payloads.
    pub fn compress_full(&self, data: &[u8]) -> (r: Result<Vec<u8>, SyncEngineError>)
        ensures
            r is Ok,
            r matches Ok(v) ==> v@ == zstd_frame(data@, self.compression_level_full),
            r matches Err(e) ==> compression_error(e, "zstd compression error: "@),
    {
        Self::compressed(data, self.compression_level_full)
    }

    /// `data` compressed at the level for deltas.
    pub fn compress_delta(&self, data: &[u8]) -> (r: Result<Vec<u8>, SyncEngineError>)
        ensures
            r is Ok,
            r matches Ok(v) ==> v@ == zstd_frame(data@, self.compression_level_delta),
            r matches Err(e) ==> compression_error(e, "zstd compression error: "@),
    {
        Self::compressed(data, self.compression_level_delta)
    }

    /// The content of `data`, which may be at most ten chunks long.
    pub fn decompress(&self, data: &[u8]) -> (r: Result<Vec<u8>, SyncEngineError>)
        requires
            self.chunk_size * 10 <= usize::MAX,
        ensures
            match r {
                Ok(v) => zstd_content(data@, (self.chunk_size * 10) as usize) == Some(v@),
                Err(e) => zstd_content(data@, (self.chunk_size * 10) as usize) is None
                    && compression_error(e, "zstd decompression error: "@),
            },
            forall|x: Seq<u8>, level: i32| data@ == #[trigger] zstd_frame(x, level) && x.len() <= self.chunk_size * 10
                ==> (r matches Ok(v) && v@ == x),
    {
        let capacity = self.chunk_size * 10;
        assert(capacity == (self.chunk_size * 10) as usize);
        match zstd_decompress(data, capacity) {
            Ok(v) => Ok(v),
            Err(m) => Err(Self::failure("zstd decompression error: ", m.as_str())),
        }
    }

    /// `data` compressed at the delta level with dictionary `dict`.
    pub fn compress_with_dict(&self, data: &[u8], dict: &[u8]) -> (r: Result<Vec<u8>, SyncEngineError>)
        ensures
            match r {
                Ok(v) => zstd_cdict_loads(dict@, self.compression_level_delta)
                    && zstd_dict_frame(data@, self.compression_level_delta, dict@) == Some(v@),
                Err(e) => if zstd_cdict_loads(dict@, self.compression_level_delta) {
                    compression_error(e, "zstd dict compression error: "@)
                        && zstd_dict_frame(data@, self.compression_level_delta, dict@) is None
                } else {
                    compression_error(e, "zstd dict compressor error: "@)
                },
            },
    {
        match dict_compressor(self.compression_level_delta, dict) {
            Ok(c) => match compress_with(c, data) {
                Ok(v) => Ok(v),
                Err(m) => Err(Self::failure("zstd dict compression error: ", m.as_str())),
            },
            Err(m) => Err(Self::failure("zstd dict compressor error: ", m.as_str())),
        }
    }

    /// The content of `data` decompressed with dictionary `dict`, at most ten chunks long.
    /// When the dictionary loads, a frame compressed with it from content that fits comes
    /// back as that content.
    pub fn decompress_with_dict(&self, data: &[u8], dict: &[u8]) -> (r: Result<Vec<u8>, SyncEngineError>)
        requires
            self.chunk_size * 10 <= usize::MAX,
        ensures
            match r {
                Ok(v) => zstd_ddict_loads(dict@)
                    && zstd_dict_content(data@, dict@, (self.chunk_size * 10) as usize) == Some(v@),
                Err(e) => if zstd_ddict_loads(dict@) {
                    compression_error(e, "zstd dict decompression error: "@)
                        && zstd_dict_content(data@, dict@, (self.chunk_size * 10) as usize) is None
                } else {
                    compression_error(e, "zstd dict decompressor error: "@)
                },
            },
            forall|x: Seq<u8>, level: i32| #[trigger] zstd_dict_frame(x, level, dict@) == Some(data@)
                && x.len() <= self.chunk_size * 10 && zstd_ddict_loads(dict@)
                ==> (r matches Ok(v) && v@ == x),
    {
        let capacity = self.chunk_size * 10;
        match dict_decompressor(dict) {
            Ok(d) => match decompress_with(d, data, capacity) {
                Ok(v) => Ok(v),
                Err(m) => Err(Self::failure("zstd dict decompression error: ", m.as_str())),
            },
            Err(m) => Err(Self::failure("zstd dict decompressor error: ", m.as_str())),
        }
    }

    /// `data` cut into chunks of the codec's chunk size, the last one possibly shorter.
    pub fn chunk_data(&self, data: &[u8]) -> (r: Vec<Vec<u8>>)
        requires
            self.chunk_size > 0,
        ensures
            crate::crypto::byte_strings(r@) == chunks_of(data@, self.chunk_size as nat),
    {
        let size = self.chunk_size;
        let n = data.len();
        let mut r: Vec<Vec<u8>> = Vec::new();
        let mut start: usize = 0;
        assert(r@.len() * size == 0) by (nonlinear_arith)
            requires
                r@.len() == 0,
        {
        }
        while start < n
            invariant
                size == self.chunk_size,
                size > 0,
                n == data@.len(),
                start <= n,
                start < n ==> start == r@.len() * size,
                r@.len() * size >= start,
                r@.len() > 0 ==> (r@.len() - 1) * size < n,
                forall|k: int| 0 <= k < r@.len() ==> (#[trigger] r@[k])@ == chunks_of(data@, size as nat)[k],
            decreases n - start,
        {
            let end = if n - start > size { start + size } else { n };
            proof {
                let k = r@.len() as nat;
                crate::recovery::replay::lemma_batch_index(k, size as nat, n as nat);
                assert(k * size + size == (k + 1) * size) by (nonlinear_arith);
            }
            let chunk = vstd::slice::slice_subrange(data, start, end);
            let mut piece: Vec<u8> = Vec::new();
            let m = chunk.len();
            for q in 0..m
                invariant
                    m == chunk@.len(),
                    piece@ == chunk@.take(q as int),
            {
                piece.push(chunk[q]);
                assert(piece@ =~= chunk@.take(q + 1));
            }
            assert(chunk@.take(m as int) =~= chunk@);
            r.push(piece);
            start = end;
        }
        proof {
            crate::recovery::replay::lemma_batch_count(r@.len(), size as nat, n as nat);
            assert(crate::crypto::byte_strings(r@) =~= chunks_of(data@, size as nat));
        }
        r
    }
}

} // verus!
