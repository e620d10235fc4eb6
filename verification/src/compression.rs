//! Brotli compression of transaction bytes, and results of it prepared ahead of time.
use crate::bytes::bytes_eq;
use alloc_stdlib::StandardAlloc;
use brotli::enc::encode::{BrotliEncoderOperation, BrotliEncoderStateStruct};
use brotli::CombiningAllocator;
use vstd::prelude::*;

verus! {

/// Window size, in bits, that fees are computed with.
pub const DEFAULT_WINDOW_SIZE: u32 = 22;

/// Narrowest window, in bits, that the encoder works with.
pub const MIN_WINDOW_SIZE: u32 = 10;

/// Widest window, in bits, that the encoder works with.
pub const MAX_WINDOW_SIZE: u32 = 24;

/// Lowest level at which the program dictionary can be used.
pub const DICTIONARY_LEVEL: u32 = 11;

/// The dictionary that a compression starts from.
#[derive(Debug)]
pub enum Dictionary {
    /// No dictionary.
    Empty,
    /// The dictionary of Stylus programs, with its contents.
    StylusProgram(Vec<u8>),
}

/// Why a compression gave nothing.
#[derive(Clone, Copy, Debug, PartialEq, Eq, Structural)]
pub enum BrotliStatus {
    Failure,
}

/// The window that the encoder uses where `window` is asked for.
pub open spec fn effective_window(window: u32) -> u32 {
    if window < MIN_WINDOW_SIZE {
        MIN_WINDOW_SIZE
    } else if window > MAX_WINDOW_SIZE {
        MAX_WINDOW_SIZE
    } else {
        window
    }
}

/// The stream that the brotli encoder makes of `input` in `room` bytes, or nothing where it
/// fails.
pub uninterp spec fn brotli_stream(input: Seq<u8>, level: u32, window: u32, room: usize) -> Option<
    Seq<u8>,
>;

/// The stream that the brotli encoder makes of `input` in `room` bytes where it starts from
/// `dictionary`, or nothing where it fails.
pub uninterp spec fn brotli_dictionary_stream(
    input: Seq<u8>,
    level: u32,
    window: u32,
    room: usize,
    dictionary: Seq<u8>,
) -> Option<Seq<u8>>;

/// The room that the encoder is given for its stream: twice that of the input, and some for
/// headers.
pub open spec fn stream_room(len: nat) -> usize {
    if 2 * len + 1024 <= isize::MAX {
        (2 * len + 1024) as usize
    } else {
        isize::MAX as usize
    }
}

/// What compressing with the given settings results in.
pub open spec fn compressed(
    input: Seq<u8>,
    level: u32,
    window: u32,
    dictionary: Dictionary,
) -> Option<Seq<u8>> {
    let room = stream_room(input.len());
    match dictionary {
        Dictionary::Empty => brotli_stream(input, level, effective_window(window), room),
        Dictionary::StylusProgram(data) => if level >= DICTIONARY_LEVEL {
            brotli_dictionary_stream(input, level, effective_window(window), room, data@)
        } else {
            None
        },
    }
}

/// Compresses `input` into at most `room` bytes.
///
/// Calls `brotli::enc::encode::BrotliEncoderStateStruct::compress_stream` once, on a new
/// encoder with the level and the window, to the end of the stream. Without the `std` feature
/// the encoder takes logarithms from tables. Trusted: the stream depends on the input, the
/// level, the window and the room alone, and is called `brotli_stream`. What the stream holds
/// is not stated, nor when there is none.
#[verifier::external_body]
fn brotli_compress(input: &[u8], level: u32, window: u32, room: usize) -> (r: Option<Vec<u8>>)
    requires
        MIN_WINDOW_SIZE <= window <= MAX_WINDOW_SIZE,
        room <= isize::MAX,
    ensures
        r is Some <==> brotli_stream(input@, level, window, room) is Some,
        r matches Some(stream) ==> brotli_stream(input@, level, window, room) == Some(stream@),
{
    let a = StandardAlloc::default();
    let heap = CombiningAllocator::new(a, a, a, a, a, a, a, a, a, a, a, a, a, a, a, a, a, a);
    let mut encoder = BrotliEncoderStateStruct::new(heap);
    encoder.params.quality = level as i32;
    encoder.params.lgwin = window as i32;
    let mut out = vec![0u8; room];
    let mut made: usize = 0;
    let done = encoder.compress_stream(
        BrotliEncoderOperation::BROTLI_OPERATION_FINISH, &mut input.len(), input, &mut 0,
        &mut out.len(), &mut out, &mut made, &mut None, &mut |_, _, _, _| (),
    );
    out.truncate(made);
    (done && encoder.is_finished()).then_some(out)
}

/// Compresses `input` into at most `room` bytes, starting from `dictionary`.
///
/// Calls `brotli::enc::encode::BrotliEncoderStateStruct::set_custom_dictionary` on a new
/// encoder with the level and the window, and `compress_stream` once, to the end of the
/// stream. Trusted: the stream depends on the input, the level, the window, the room and the
/// dictionary alone, and is called `brotli_dictionary_stream`. What the stream holds is not
/// stated, nor when there is none.
#[verifier::external_body]
fn brotli_compress_from(
    input: &[u8],
    level: u32,
    window: u32,
    room: usize,
    dictionary: &[u8],
) -> (r: Option<Vec<u8>>)
    requires
        MIN_WINDOW_SIZE <= window <= MAX_WINDOW_SIZE,
        room <= isize::MAX,
    ensures
        r is Some <==> brotli_dictionary_stream(input@, level, window, room, dictionary@) is Some,
        r matches Some(stream) ==> brotli_dictionary_stream(
            input@,
            level,
            window,
            room,
            dictionary@,
        ) == Some(stream@),
{
    let a = StandardAlloc::default();
    let heap = CombiningAllocator::new(a, a, a, a, a, a, a, a, a, a, a, a, a, a, a, a, a, a);
    let mut encoder = BrotliEncoderStateStruct::new(heap);
    encoder.params.quality = level as i32;
    encoder.params.lgwin = window as i32;
    encoder.set_custom_dictionary(dictionary.len(), dictionary);
    let mut out = vec![0u8; room];
    let mut made: usize = 0;
    let done = encoder.compress_stream(
        BrotliEncoderOperation::BROTLI_OPERATION_FINISH, &mut input.len(), input, &mut 0,
        &mut out.len(), &mut out, &mut made, &mut None, &mut |_, _, _, _| (),
    );
    out.truncate(made);
    (done && encoder.is_finished()).then_some(out)
}

/// Compresses `input` with the given settings.
pub fn compress(
    input: &[u8],
    level: u32,
    window_size: u32,
    dictionary: &Dictionary,
) -> (r: Result<Vec<u8>, BrotliStatus>)
    ensures
        r is Ok <==> compressed(input@, level, window_size, *dictionary) is Some,
        r matches Ok(stream) ==> compressed(input@, level, window_size, *dictionary) == Some(
            stream@,
        ),
        r matches Err(e) ==> e == BrotliStatus::Failure,
{
    let window: u32 = if window_size < MIN_WINDOW_SIZE {
        MIN_WINDOW_SIZE
    } else if window_size > MAX_WINDOW_SIZE {
        MAX_WINDOW_SIZE
    } else {
        window_size
    };
    let most: usize = isize::MAX as usize;
    let room: usize = if input.len() <= (most - 1024) / 2 {
        2 * input.len() + 1024
    } else {
        most
    };
    let stream = match dictionary {
        Dictionary::Empty => brotli_compress(input, level, window, room),
        Dictionary::StylusProgram(data) => {
            if level < DICTIONARY_LEVEL {
                return Err(BrotliStatus::Failure);
            }
            brotli_compress_from(input, level, window, room, data.as_slice())
        },
    };
    match stream {
        Some(stream) => Ok(stream),
        None => Err(BrotliStatus::Failure),
    }
}

/// Number of exact matches that prepared results were consumed for. Diagnostic only: no
/// fee depends on it.
#[derive(Debug)]
pub struct HitCounter {
    pub count: u64,
}

impl HitCounter {
    /// A counter at zero.
    pub fn new() -> (r: HitCounter)
        ensures
            r.count == 0,
    {
        HitCounter { count: 0 }
    }

    /// Successful exact-match consumptions so far.
    pub fn hit_count(&self) -> (r: u64)
        ensures
            r == self.count,
    {
        self.count
    }
}

/// The counter after one more hit; it starts again at zero after the largest count.
pub open spec fn counted(count: u64, hit: bool) -> u64 {
    if !hit {
        count
    } else if count == u64::MAX {
        0
    } else {
        (count + 1) as u64
    }
}

/// Compression result prepared independently of execution state.
///
/// Only successful compression is retained, with the exact input and settings. No fee,
/// price or execution state is held.
#[derive(Debug)]
pub struct PreparedPosterCompression {
    tx_bytes: Vec<u8>,
    brotli_level: u32,
    window_size: u32,
    dictionary: Dictionary,
    compressed_len: u64,
}

impl PreparedPosterCompression {
    /// The retained length is that of compressing the retained input as asked for.
    #[verifier::type_invariant]
    closed spec fn truthful(self) -> bool {
        compressed(self.tx_bytes@, self.brotli_level, self.window_size, self.dictionary) matches Some(
            stream,
        ) && stream.len() == self.compressed_len
    }

    /// The retained input.
    pub closed spec fn input(self) -> Seq<u8> {
        self.tx_bytes@
    }

    /// The level asked for.
    pub closed spec fn level(self) -> u32 {
        self.brotli_level
    }

    /// The window asked for.
    pub closed spec fn window(self) -> u32 {
        self.window_size
    }

    /// Whether no dictionary was asked for.
    pub closed spec fn plain(self) -> bool {
        self.dictionary is Empty
    }

    /// Whether the result stands for compressing `tx_bytes` at `level` with the settings
    /// that fees are computed with.
    pub open spec fn matches(self, tx_bytes: Seq<u8>, level: u32) -> bool {
        &&& self.level() == level
        &&& self.window() == DEFAULT_WINDOW_SIZE
        &&& self.plain()
        &&& self.input() == tx_bytes
    }

    /// Compresses `tx_bytes` ahead of its use. A failure is returned and never retained.
    pub fn prepare(
        tx_bytes: &[u8],
        brotli_level: u32,
        window_size: u32,
        dictionary: Dictionary,
    ) -> (r: Result<PreparedPosterCompression, BrotliStatus>)
        ensures
            r is Ok <==> compressed(tx_bytes@, brotli_level, window_size, dictionary) is Some,
            r matches Ok(p) ==> {
                &&& p.input() == tx_bytes@
                &&& p.level() == brotli_level
                &&& p.window() == window_size
                &&& p.plain() == (dictionary is Empty)
            },
            r matches Err(e) ==> e == BrotliStatus::Failure,
    {
        let stream = match compress(tx_bytes, brotli_level, window_size, &dictionary) {
            Ok(stream) => stream,
            Err(status) => return Err(status),
        };
        let compressed_len: u64 = stream.len() as u64;
        let mut owned: Vec<u8> = Vec::new();
        owned.extend_from_slice(tx_bytes);
        assert(owned@ =~= tx_bytes@);
        Ok(
            PreparedPosterCompression {
                tx_bytes: owned,
                brotli_level,
                window_size,
                dictionary,
                compressed_len,
            },
        )
    }

    /// The retained length where the result is an exact match, counted as a hit.
    pub fn compressed_len_for(
        &self,
        tx_bytes: &[u8],
        brotli_level: u32,
        hits: &mut HitCounter,
    ) -> (r: Option<u64>)
        ensures
            r is Some <==> self.matches(tx_bytes@, brotli_level),
            r matches Some(len) ==> compressed(
                tx_bytes@,
                brotli_level,
                DEFAULT_WINDOW_SIZE,
                Dictionary::Empty,
            ) matches Some(stream) && stream.len() == len,
            final(hits).count == counted(old(hits).count, self.matches(tx_bytes@, brotli_level)),
    {
        proof {
            use_type_invariant(self);
        }
        let plain = match &self.dictionary {
            Dictionary::Empty => true,
            Dictionary::StylusProgram(_) => false,
        };
        if self.brotli_level == brotli_level && self.window_size == DEFAULT_WINDOW_SIZE && plain
            && bytes_eq(self.tx_bytes.as_slice(), tx_bytes) {
            hits.count = hits.count.wrapping_add(1);
            Some(self.compressed_len)
        } else {
            None
        }
    }
}

/// A compression asks the encoder for the level as it is, for the window brought between 10 and 24
/// bits, and for room for twice the input and 1024 bytes more, or as much as there can be. A
/// dictionary is used from level 11 on; below it there is no compression with one. What the
/// encoder gives is the result, whole, and where it gives nothing there is none.
pub proof fn lemma_what_the_encoder_is_asked_for(
    input: &[u8],
    level: u32,
    window_size: u32,
    dictionary: Dictionary,
    window: u32,
    room: usize,
    r: Result<Vec<u8>, BrotliStatus>,
)
    requires
        call_ensures(compress, (input, level, window_size, &dictionary), r),
        window == window_size && 10 <= window_size <= 24 || window == 10 && window_size < 10
            || window == 24 && window_size > 24,
        room == 2 * input@.len() + 1024 || room == isize::MAX && room < 2 * input@.len() + 1024,
        room <= isize::MAX,
    ensures
        ({
            let stream = match dictionary {
                Dictionary::Empty => brotli_stream(input@, level, window, room),
                Dictionary::StylusProgram(data) => if level >= 11 {
                    brotli_dictionary_stream(input@, level, window, room, data@)
                } else {
                    None
                },
            };
            match r {
                Ok(made) => stream == Some(made@),
                Err(_) => stream is None,
            }
        }),
{
}

/// What was prepared with the settings of fees, a window of 22 bits and no dictionary, is consumed
/// for the very bytes and level that it was prepared for, and gives the length that compressing
/// them gives; it is consumed for nothing else. What was prepared with other settings is never
/// consumed. Each time that it is consumed counts one, and nothing else counts.
pub proof fn lemma_prepared_results_are_exact_matches(
    tx_bytes: &[u8],
    brotli_level: u32,
    window_size: u32,
    dictionary: Dictionary,
    prepared: PreparedPosterCompression,
    other_bytes: &[u8],
    other_level: u32,
    direct: Result<Vec<u8>, BrotliStatus>,
)
    requires
        call_ensures(
            PreparedPosterCompression::prepare,
            (tx_bytes, brotli_level, window_size, dictionary),
            Ok(prepared),
        ),
        call_ensures(
            compress,
            (other_bytes, other_level, DEFAULT_WINDOW_SIZE, &Dictionary::Empty),
            direct,
        ),
    ensures
        DEFAULT_WINDOW_SIZE == 22,
        forall|hits: &mut HitCounter, r: Option<u64>| #[trigger]
            call_ensures(
                PreparedPosterCompression::compressed_len_for,
                (&prepared, other_bytes, other_level, hits),
                r,
            ) ==> {
                &&& r is Some <==> window_size == 22 && dictionary is Empty && other_bytes@
                    == tx_bytes@ && other_level == brotli_level
                &&& r matches Some(len) ==> (direct matches Ok(stream) && stream@.len() == len)
                &&& r is None ==> final(hits).count == hits.count
                &&& r is Some && hits.count < u64::MAX ==> final(hits).count == hits.count + 1
                &&& r is Some && hits.count == u64::MAX ==> final(hits).count == 0
            },
{
}

/// Something is prepared exactly where there is a compression of it.
pub proof fn lemma_failures_are_not_prepared(
    tx_bytes: &[u8],
    brotli_level: u32,
    window_size: u32,
    dictionary: Dictionary,
    r: Result<PreparedPosterCompression, BrotliStatus>,
    direct: Result<Vec<u8>, BrotliStatus>,
)
    requires
        call_ensures(
            PreparedPosterCompression::prepare,
            (tx_bytes, brotli_level, window_size, dictionary),
            r,
        ),
        call_ensures(compress, (tx_bytes, brotli_level, window_size, &dictionary), direct),
    ensures
        r is Ok <==> direct is Ok,
{
}

} // verus!
