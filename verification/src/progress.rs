//! Progress accounting for one buffered copy.
//!
//! The copy loop reads a chunk, writes it, and reports how far it has come as
//! a whole percentage.  A zero-length file has nothing to stream and counts
//! as fully copied from the start, so the percentage is well defined for
//! every file and never divides by zero.

use vstd::prelude::*;
use vstd::arithmetic::div_mod::lemma_div_is_ordered;
use vstd::arithmetic::div_mod::lemma_div_multiples_vanish;
use vstd::arithmetic::mul::lemma_mul_inequality;

verus! {

/// The fixed size of the intermediate buffer a copy streams through.
pub const BUFFER_SIZE: usize = 100 * 1024;

/// How far the copy of a file of `total` bytes has come, in whole percent,
/// once `done` bytes have been written.
pub open spec fn percent_spec(done: u64, total: u64) -> int {
    if total == 0 {
        100
    } else {
        done as int * 100 / total as int
    }
}

/// Progress of one file's buffered copy: total size, taken once up front,
/// and the bytes written so far.
#[derive(Debug, Clone, Copy, PartialEq, Eq, Structural)]
pub struct CopyProgress {
    pub total: u64,
    pub done: u64,
}

impl CopyProgress {
    /// The copy never writes more bytes than the file holds.
    pub open spec fn wf(&self) -> bool {
        self.done <= self.total
    }

    /// Start the copy of a file of `total` bytes.
    pub fn new(total: u64) -> (r: CopyProgress)
        ensures
            r.total == total,
            r.done == 0,
            r.wf(),
    {
        CopyProgress { total, done: 0 }
    }

    /// Record that one more chunk of `n` bytes was written, and report the
    /// percentage complete after it.
    pub fn record_chunk(&mut self, n: u64) -> (percent: u8)
        requires
            old(self).wf(),
            n <= old(self).total - old(self).done,
        ensures
            final(self).total == old(self).total,
            final(self).done == old(self).done + n,
            final(self).wf(),
            percent == percent_spec(final(self).done, final(self).total),
    {
        self.done = self.done + n;
        self.current_percent()
    }

    /// The percentage complete now; a zero-length file reports 100 at once.
    pub fn current_percent(&self) -> (percent: u8)
        requires
            self.wf(),
        ensures
            percent == percent_spec(self.done, self.total),
    {
        if self.total == 0 {
            100
        } else {
            let scaled: u128 = (self.done as u128) * 100;
            let q: u128 = scaled / (self.total as u128);
            proof {
                lemma_mul_inequality(self.done as int, self.total as int, 100);
                lemma_div_is_ordered(
                    self.done as int * 100,
                    self.total as int * 100,
                    self.total as int,
                );
                lemma_div_multiples_vanish(100, self.total as int);
                assert(self.done as int * 100 / self.total as int <= 100);
            }
            q as u8
        }
    }
}

/// The verified core of the copy operation: stream the source bytes chunk by
/// chunk through a buffer-sized window into a fresh destination, recording
/// progress after each chunk.  The destination holds exactly the source
/// bytes; a zero-length source completes at once.  The surrounding program
/// runs the same loop against real files, where each chunk comes from a read
/// and goes to a write.
pub fn copy_bytes(src: &Vec<u8>) -> (dest: Vec<u8>)
    requires
        src@.len() <= u64::MAX,
    ensures
        dest@ == src@,
{
    let len: usize = src.len();
    let total: u64 = len as u64;
    let mut progress = CopyProgress::new(total);
    let mut dest: Vec<u8> = Vec::new();
    let mut pos: usize = 0;
    while pos < len
        invariant
            0 <= pos <= len,
            len == src@.len(),
            len <= u64::MAX,
            total == len,
            progress.total == total,
            progress.done == pos,
            dest@ =~= src@.subrange(0, pos as int),
        decreases len - pos,
    {
        let chunk_end: usize = if len - pos < BUFFER_SIZE {
            len
        } else {
            pos + BUFFER_SIZE
        };
        let mut k: usize = pos;
        while k < chunk_end
            invariant
                pos <= k <= chunk_end <= len,
                len == src@.len(),
                dest@ =~= src@.subrange(0, k as int),
            decreases chunk_end - k,
        {
            let b: u8 = src[k];
            dest.push(b);
            assert(dest@ =~= src@.subrange(0, k + 1));
            k = k + 1;
        }
        let n: u64 = (chunk_end - pos) as u64;
        let _percent = progress.record_chunk(n);
        pos = chunk_end;
    }
    assert(dest@ =~= src@);
    dest
}

} // verus!
