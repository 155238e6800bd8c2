//! The polymorphic byte-stream endpoints.
//!
//! Regular files and the standard streams are modelled by the plain bytes
//! they still hold or have retained; the code that owns the actual OS
//! handles fills an input's model before a copy starts and drains an
//! output's model afterwards.  The synthetic devices carry their
//! semantics entirely in the model: the zero and random generators never
//! signal end-of-stream, the null source always does, the null sink
//! discards every write, and the full simulator rejects every write.

use vstd::prelude::*;

use crate::errors::CopyError;

verus! {

/// A run of `n` zero bytes.
pub open spec fn zero_bytes(n: nat) -> Seq<u8> {
    Seq::new(n, |i: int| 0u8)
}

/// Represents either a file, standard input, or a synthetic device to
/// read from.
pub enum InputSource {
    File { content: Vec<u8>, pos: usize },
    Stdin { content: Vec<u8>, pos: usize },
    DevZero,
    DevNull,
    DevUrandom,
}

impl InputSource {
    /// The read position never passes the end of the held content.
    pub open spec fn wf(self) -> bool {
        match self {
            InputSource::File { content, pos } => pos <= content@.len(),
            InputSource::Stdin { content, pos } => pos <= content@.len(),
            _ => true,
        }
    }

    /// Whether the source signals end-of-stream after finitely many
    /// bytes.  The zero and random generators never do.
    pub open spec fn is_finite(self) -> bool {
        match self {
            InputSource::DevZero | InputSource::DevUrandom => false,
            _ => true,
        }
    }

    /// The bytes a finite source still holds; the null source holds none.
    pub open spec fn remaining(self) -> Seq<u8> {
        match self {
            InputSource::File { content, pos } => content@.skip(pos as int),
            InputSource::Stdin { content, pos } => content@.skip(pos as int),
            _ => Seq::<u8>::empty(),
        }
    }

    /// The byte count a finite source still holds; zero for the
    /// generators, whose target is bounded by the sink instead.
    pub fn remaining_len(&self) -> (n: usize)
        requires
            self.wf(),
        ensures
            self.is_finite() ==> n == self.remaining().len(),
            !self.is_finite() ==> n == 0,
    {
        match self {
            InputSource::File { content, pos } => content.len() - *pos,
            InputSource::Stdin { content, pos } => content.len() - *pos,
            _ => 0,
        }
    }

    /// Fill a prefix of `buf` from the source and say how many bytes were
    /// placed.  A finite source hands out its next bytes in order and
    /// signals end-of-stream with 0; the generators always fill the whole
    /// buffer, with zeros or with bytes nothing is promised about.
    pub fn read(&mut self, buf: &mut Vec<u8>) -> (n: usize)
        requires
            old(self).wf(),
        ensures
            final(self).wf(),
            final(buf)@.len() == old(buf)@.len(),
            n <= old(buf)@.len(),
            final(self).is_finite() == old(self).is_finite(),
            old(self).is_finite() ==> {
                &&& n == vstd::math::min(old(buf)@.len() as int, old(self).remaining().len() as int)
                &&& final(buf)@ == old(self).remaining().take(n as int) + old(buf)@.skip(n as int)
                &&& final(self).remaining() == old(self).remaining().skip(n as int)
            },
            *old(self) is DevZero ==> n == old(buf)@.len() && final(buf)@ == zero_bytes(
                old(buf)@.len(),
            ),
            *old(self) is DevUrandom ==> n == old(buf)@.len(),
            (*old(self) is DevZero || *old(self) is DevNull || *old(self) is DevUrandom)
                ==> *final(self) == *old(self),
            *old(self) is File ==> *final(self) is File,
            *old(self) is Stdin ==> *final(self) is Stdin,
    {
        let n = match self {
            InputSource::File { content, pos } => read_chunk(content, pos, buf),
            InputSource::Stdin { content, pos } => read_chunk(content, pos, buf),
            InputSource::DevZero => {
                fill_zero(buf);
                buf.len()
            },
            InputSource::DevNull => 0,
            InputSource::DevUrandom => {
                fill_random(buf);
                buf.len()
            },
        };
        proof {
            match *old(self) {
                InputSource::File { content, pos } => {
                    assert(content@.skip(pos + n) =~= content@.skip(pos as int).skip(n as int));
                },
                InputSource::Stdin { content, pos } => {
                    assert(content@.skip(pos + n) =~= content@.skip(pos as int).skip(n as int));
                },
                _ => {},
            }
        }
        n
    }
}

/// Copy the next bytes of `content` after `pos` into the front of `buf`,
/// advancing `pos`; the tail of `buf` keeps its old bytes.
fn read_chunk(content: &Vec<u8>, pos: &mut usize, buf: &mut Vec<u8>) -> (n: usize)
    requires
        *old(pos) <= content@.len(),
    ensures
        *final(pos) <= content@.len(),
        final(buf)@.len() == old(buf)@.len(),
        n <= old(buf)@.len(),
        n == vstd::math::min(old(buf)@.len() as int, content@.len() - *old(pos)),
        *final(pos) == *old(pos) + n,
        final(buf)@ == content@.skip(*old(pos) as int).take(n as int) + old(buf)@.skip(n as int),
{
    let avail = content.len() - *pos;
    let n = if buf.len() < avail {
        buf.len()
    } else {
        avail
    };
    let mut i: usize = 0;
    while i < n
        invariant
            0 <= i <= n,
            n <= buf@.len(),
            *pos + n <= content@.len(),
            content@.len() <= usize::MAX,
            buf@.len() == old(buf)@.len(),
            *pos == *old(pos),
            forall|j: int| 0 <= j < i ==> buf@[j] == content@[*pos + j],
            forall|j: int| i <= j < buf@.len() ==> buf@[j] == old(buf)@[j],
        decreases n - i,
    {
        let b = content[*pos + i];
        buf.set(i, b);
        i += 1;
    }
    proof {
        assert(buf@ =~= content@.skip(*old(pos) as int).take(n as int) + old(buf)@.skip(n as int));
    }
    *pos = *pos + n;
    n
}

/// Overwrite every byte of `buf` with zero.
fn fill_zero(buf: &mut Vec<u8>)
    ensures
        final(buf)@ == zero_bytes(old(buf)@.len()),
{
    let mut i: usize = 0;
    while i < buf.len()
        invariant
            0 <= i <= buf@.len(),
            buf@.len() == old(buf)@.len(),
            forall|j: int| 0 <= j < i ==> buf@[j] == 0u8,
        decreases buf@.len() - i,
    {
        buf.set(i, 0u8);
        i += 1;
    }
    proof {
        assert(buf@ =~= zero_bytes(old(buf)@.len()));
    }
}

/// Relies on `rand::rng` and `rand_core::Rng::fill_bytes`: overwrites
/// the whole slice with pseudo-random bytes in place.  The contents
/// depend on the generator's state, so nothing is promised of them; the
/// length cannot change.
#[verifier::external_body]
fn fill_random(buf: &mut Vec<u8>)
    ensures
        final(buf)@.len() == old(buf)@.len(),
{
    rand::Rng::fill_bytes(&mut rand::rng(), buf.as_mut_slice());
}

/// Represents either a file, standard output, or a synthetic device to
/// write to.
pub enum OutputSource {
    File { written: Vec<u8>, capacity: Option<usize> },
    Stdout { written: Vec<u8> },
    DevNull,
    DevFull,
}

impl OutputSource {
    /// What is retained never exceeds a declared capacity.
    pub open spec fn wf(self) -> bool {
        match self {
            OutputSource::File { written, capacity } => match capacity {
                Some(c) => written@.len() <= c,
                None => true,
            },
            _ => true,
        }
    }

    /// The bytes the sink has retained.
    pub open spec fn written_bytes(self) -> Seq<u8> {
        match self {
            OutputSource::File { written, .. } => written@,
            OutputSource::Stdout { written } => written@,
            _ => Seq::<u8>::empty(),
        }
    }

    /// Whether the sink retains what is written; the discard sinks do
    /// not.
    pub open spec fn retains(self) -> bool {
        match self {
            OutputSource::File { .. } | OutputSource::Stdout { .. } => true,
            _ => false,
        }
    }

    /// How many more bytes the sink accepts; `None` is unbounded.  The
    /// null sink has infinite capacity, the full simulator none.
    pub open spec fn spec_room(self) -> Option<nat> {
        match self {
            OutputSource::File { written, capacity } => match capacity {
                Some(c) => Some((c - written@.len()) as nat),
                None => None,
            },
            OutputSource::Stdout { .. } => None,
            OutputSource::DevNull => None,
            OutputSource::DevFull => Some(0nat),
        }
    }

    /// Same variant, same capacity: what writing preserves of a sink.
    pub open spec fn same_sink(self, other: Self) -> bool {
        match (self, other) {
            (
                OutputSource::File { capacity: c1, .. },
                OutputSource::File { capacity: c2, .. },
            ) => c1 == c2,
            (OutputSource::Stdout { .. }, OutputSource::Stdout { .. }) => true,
            (OutputSource::DevNull, OutputSource::DevNull) => true,
            (OutputSource::DevFull, OutputSource::DevFull) => true,
            _ => false,
        }
    }

    /// One write attempt.  A file appends what fits in its remaining
    /// room and reports how much that was, failing only when it has no
    /// room for a non-empty write; standard output and the null sink
    /// accept everything; the full simulator rejects every attempt.
    pub fn write(&mut self, buf: &[u8]) -> (r: Result<usize, CopyError>)
        requires
            old(self).wf(),
        ensures
            final(self).wf(),
            old(self).same_sink(*final(self)),
            match r {
                Ok(n) => {
                    &&& n <= buf@.len()
                    &&& match old(self).spec_room() {
                        None => n == buf@.len(),
                        Some(room) => n == vstd::math::min(buf@.len() as int, room as int),
                    }
                    &&& old(self).retains() ==> final(self).written_bytes() == old(
                        self,
                    ).written_bytes() + buf@.take(n as int)
                    &&& !old(self).retains() ==> *final(self) == *old(self)
                },
                Err(e) => {
                    &&& e == CopyError::WriteFailure
                    &&& *final(self) == *old(self)
                    &&& old(self).spec_room() == Some(0nat)
                },
            },
            r is Err <==> *old(self) is DevFull || (old(self).spec_room() == Some(0nat)
                && buf@.len() > 0),
    {
        match self {
            OutputSource::File { written, capacity } => {
                let room = match capacity {
                    Some(c) => *c - written.len(),
                    None => buf.len(),
                };
                if room == 0 && buf.len() > 0 {
                    Err(CopyError::WriteFailure)
                } else {
                    let n = if buf.len() < room {
                        buf.len()
                    } else {
                        room
                    };
                    append_prefix(written, buf, n);
                    Ok(n)
                }
            },
            OutputSource::Stdout { written } => {
                let n = buf.len();
                append_prefix(written, buf, n);
                Ok(n)
            },
            OutputSource::DevNull => Ok(buf.len()),
            OutputSource::DevFull => Err(CopyError::WriteFailure),
        }
    }

    /// Write the whole slice, as the writer stage does: repeated write
    /// attempts until everything is accepted or the sink fails.  A sink
    /// with unbounded room accepts everything; a bounded sink fails on a
    /// slice larger than its room, retaining exactly what fit.
    pub fn write_all(&mut self, buf: &[u8]) -> (r: Result<(), CopyError>)
        requires
            old(self).wf(),
        ensures
            final(self).wf(),
            old(self).same_sink(*final(self)),
            r is Ok <==> (old(self).spec_room() is None || buf@.len()
                <= old(self).spec_room()->Some_0),
            r is Err ==> r == Err::<(), CopyError>(CopyError::WriteFailure),
            r is Ok && old(self).retains() ==> final(self).written_bytes() == old(
                self,
            ).written_bytes() + buf@,
            r is Err && old(self).retains() ==> final(self).written_bytes() == old(
                self,
            ).written_bytes() + buf@.take(old(self).spec_room()->Some_0 as int),
            !old(self).retains() ==> *final(self) == *old(self),
    {
        let mut offset: usize = 0;
        while offset < buf.len()
            invariant
                self.wf(),
                old(self).same_sink(*self),
                offset <= buf@.len(),
                old(self).retains() == self.retains(),
                self.retains() ==> self.written_bytes() == old(self).written_bytes() + buf@.take(
                    offset as int,
                ),
                !self.retains() ==> *self == *old(self),
                match old(self).spec_room() {
                    None => self.spec_room() is None,
                    Some(room) => offset <= room && self.spec_room() == Some(
                        (room - offset) as nat,
                    ),
                },
            decreases buf@.len() - offset,
        {
            let rest = vstd::slice::slice_subrange(buf, offset, buf.len());
            let ghost pre = *self;
            match self.write(rest) {
                Ok(n) => {
                    proof {
                        if pre.retains() {
                            assert(pre.written_bytes() + rest@.take(n as int) =~= old(
                                self,
                            ).written_bytes() + buf@.take(offset + n)) by {
                                assert(old(self).written_bytes() + buf@.take(offset as int)
                                    == pre.written_bytes());
                            }
                        }
                    }
                    offset = offset + n;
                },
                Err(e) => {
                    proof {
                        assert(buf@.take(offset as int) =~= buf@.take(
                            old(self).spec_room()->Some_0 as int,
                        ));
                    }
                    return Err(e);
                },
            }
        }
        proof {
            if self.retains() {
                assert(buf@.take(buf@.len() as int) =~= buf@);
            }
        }
        Ok(())
    }

    /// Flush the sink.  The model keeps no intermediate buffering, so
    /// flushing changes nothing and never fails.
    pub fn flush(&mut self) -> (r: Result<(), CopyError>)
        ensures
            *final(self) == *old(self),
            r is Ok,
    {
        Ok(())
    }
}

/// Append the first `n` bytes of `buf` to `dst`.
fn append_prefix(dst: &mut Vec<u8>, buf: &[u8], n: usize)
    requires
        n <= buf@.len(),
    ensures
        final(dst)@ == old(dst)@ + buf@.take(n as int),
{
    let mut i: usize = 0;
    while i < n
        invariant
            0 <= i <= n,
            n <= buf@.len(),
            dst@.len() == old(dst)@.len() + i,
            forall|j: int| 0 <= j < old(dst)@.len() ==> dst@[j] == old(dst)@[j],
            forall|j: int| 0 <= j < i ==> dst@[old(dst)@.len() + j] == buf@[j],
        decreases n - i,
    {
        let b = *vstd::slice::slice_index_get(buf, i);
        dst.push(b);
        i += 1;
    }
    proof {
        assert(dst@ =~= old(dst)@ + buf@.take(n as int));
    }
}

} // verus!
