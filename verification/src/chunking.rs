//! How a source is cut into chunks: windows of the chunk size, the last one
//! possibly shorter.

use vstd::arithmetic::div_mod::{lemma_fundamental_div_mod, lemma_fundamental_div_mod_converse};
use vstd::prelude::*;

use crate::config::MAX_CHUNKS;
use crate::error::{Failure, TransferError};

verus! {

/// The number of chunks that a source of `len` bytes has at chunk size `c`:
/// `len / c`, rounded up.
pub open spec fn chunk_count(len: nat, c: nat) -> nat {
    if c == 0 {
        0
    } else if len % c == 0 {
        len / c
    } else {
        len / c + 1
    }
}

/// The length of chunk `i` (from 0) of a source of `len` bytes at chunk size
/// `c`; zero past the end.
pub open spec fn window_len(len: nat, c: nat, i: nat) -> nat {
    if i * c >= len {
        0
    } else if len - i * c < c {
        (len - i * c) as nat
    } else {
        c
    }
}

/// Chunk `i` (from 0) of `source` at chunk size `c`; empty past the end.
pub open spec fn chunk_at(source: Seq<u8>, c: nat, i: nat) -> Seq<u8> {
    source.subrange(
        (i * c) as int,
        (i * c) as int + window_len(source.len(), c, i),
    )
}

/// An empty source has no chunks.
pub proof fn lemma_empty_source(c: nat)
    ensures
        chunk_count(0, c) == 0,
        c > 0 ==> 0nat % c == 0,
{
    if c > 0 {
        lemma_fundamental_div_mod_converse(0, c as int, 0, 0);
    }
}

/// A source that is a whole number of windows long has that many chunks.
pub proof fn lemma_whole_windows(len: nat, c: nat)
    requires
        c > 0,
        len % c == 0,
    ensures
        len == chunk_count(len, c) * c,
{
    lemma_fundamental_div_mod(len as int, c as int);
    assert(c * (len / c) == (len / c) * c) by (nonlinear_arith);
}

/// Chunks lie inside the source, and only those before `chunk_count` are non-empty.
pub proof fn lemma_window_len(len: nat, c: nat, i: nat)
    requires
        c > 0,
    ensures
        i * c + window_len(len, c, i) <= len || window_len(len, c, i) == 0,
        window_len(len, c, i) <= c,
        window_len(len, c, i) > 0 <==> i < chunk_count(len, c),
        i + 1 < chunk_count(len, c) ==> window_len(len, c, i) == c,
{
    let q = len / c;
    let r = len % c;
    lemma_fundamental_div_mod(len as int, c as int);
    assert(c * q == q * c) by (nonlinear_arith);
    if i < q {
        assert(i * c + c <= q * c) by (nonlinear_arith)
            requires
                i + 1 <= q,
                c > 0,
        ;
    } else {
        assert(q * c <= i * c) by (nonlinear_arith)
            requires
                q <= i,
                c > 0,
        ;
        if i > q {
            assert(q * c + c <= i * c) by (nonlinear_arith)
                requires
                    q + 1 <= i,
                    c > 0,
            ;
        }
    }
    if i + 1 < chunk_count(len, c) {
        assert(i * c + c + c <= q * c + c) by (nonlinear_arith)
            requires
                i + 1 <= q,
                c > 0,
        ;
    }
}

/// The chunks before chunk `k` cover the first `covered(len, c, k)` bytes of a
/// source of `len` bytes.
pub open spec fn covered(len: nat, c: nat, k: nat) -> nat {
    if k * c < len {
        k * c
    } else {
        len
    }
}

/// Each chunk starts where the chunks before it end, and all the chunks of a
/// source cover it.
pub proof fn lemma_covered(len: nat, c: nat, k: nat)
    requires
        c > 0,
    ensures
        covered(len, c, 0) == 0,
        k < chunk_count(len, c) ==> covered(len, c, k) == k * c && covered(len, c, k + 1) == k * c
            + window_len(len, c, k),
        covered(len, c, chunk_count(len, c)) == len,
{
    let q = len / c;
    lemma_fundamental_div_mod(len as int, c as int);
    assert(c * q == q * c) by (nonlinear_arith);
    assert(0 * c == 0) by (nonlinear_arith);
    assert((q + 1) * c == q * c + c) by (nonlinear_arith);
    if k < chunk_count(len, c) {
        lemma_window_len(len, c, k);
        assert((k + 1) * c == k * c + c) by (nonlinear_arith);
    }
}

/// Appending one window of at most `c` bytes to a source that is a whole
/// number of windows long adds one chunk, which is that window, and leaves
/// the chunks before it as they were.
pub proof fn lemma_append_window(source: Seq<u8>, c: nat, window: Seq<u8>)
    requires
        c > 0,
        source.len() % c == 0,
        0 < window.len() <= c,
    ensures
        chunk_count((source + window).len(), c) == chunk_count(source.len(), c) + 1,
        chunk_at(source + window, c, chunk_count(source.len(), c)) == window,
        forall|i: nat|
            i < chunk_count(source.len(), c) ==> #[trigger] chunk_at(source + window, c, i)
                == chunk_at(source, c, i),
        window.len() == c ==> (source + window).len() % c == 0,
        window.len() < c ==> (source + window).len() % c != 0,
{
    let w = chunk_count(source.len(), c);
    let grown = source + window;
    lemma_whole_windows(source.len(), c);
    if window.len() == c {
        assert(w * c + c == (w + 1) * c) by (nonlinear_arith);
        lemma_fundamental_div_mod_converse(grown.len() as int, c as int, w as int + 1, 0);
    } else {
        lemma_fundamental_div_mod_converse(
            grown.len() as int,
            c as int,
            w as int,
            window.len() as int,
        );
    }
    lemma_window_len(grown.len(), c, w);
    assert(chunk_at(grown, c, w) =~= window);
    assert forall|i: nat| i < w implies #[trigger] chunk_at(grown, c, i) == chunk_at(
        source,
        c,
        i,
    ) by {
        lemma_window_len(source.len(), c, i);
        lemma_window_len(grown.len(), c, i);
        assert(i * c + c <= w * c) by (nonlinear_arith)
            requires
                i + 1 <= w,
                c > 0,
        ;
        assert(chunk_at(grown, c, i) =~= chunk_at(source, c, i));
    }
}

/// A chunk that lies whole inside a prefix of a source is the same chunk of
/// the source.
pub proof fn lemma_prefix_window(prefix: Seq<u8>, full: Seq<u8>, c: nat, i: nat)
    requires
        c > 0,
        prefix.is_prefix_of(full),
        (i + 1) * c <= prefix.len(),
    ensures
        chunk_at(prefix, c, i) == chunk_at(full, c, i),
        chunk_at(prefix, c, i).len() == c,
{
    assert((i + 1) * c == i * c + c) by (nonlinear_arith);
    assert(chunk_at(prefix, c, i) =~= chunk_at(full, c, i));
}

/// The number of chunks of a source of `source_size` bytes at `chunk_size`,
/// refused where the chunk size is zero or the count is over the limit of a
/// session.
pub fn count_chunks(source_size: u64, chunk_size: usize) -> (r: Result<u64, TransferError>)
    ensures
        match r {
            Ok(count) => chunk_size > 0 && count == chunk_count(
                source_size as nat,
                chunk_size as nat,
            ) && count <= MAX_CHUNKS,
            Err(e) => if chunk_size == 0 {
                e@ == Failure::ZeroChunkSize
            } else {
                &&& chunk_count(source_size as nat, chunk_size as nat) > MAX_CHUNKS
                &&& e@ == (Failure::TooManyChunks {
                    chunks: chunk_count(source_size as nat, chunk_size as nat),
                    limit: MAX_CHUNKS as nat,
                })
            },
        },
{
    if chunk_size == 0 {
        return Err(TransferError::ZeroChunkSize);
    }
    let c = chunk_size as u64;
    let whole = source_size / c;
    let count = if source_size % c == 0 {
        whole
    } else {
        proof {
            lemma_fundamental_div_mod(source_size as int, c as int);
            assert(whole < u64::MAX) by (nonlinear_arith)
                requires
                    source_size == c * whole + source_size % c,
                    source_size % c > 0,
                    c > 0,
                    source_size <= u64::MAX,
                    whole >= 0,
            ;
        }
        whole + 1
    };
    if count > MAX_CHUNKS {
        Err(TransferError::TooManyChunks { chunks: count, limit: MAX_CHUNKS })
    } else {
        Ok(count)
    }
}

} // verus!
