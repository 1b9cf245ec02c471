//! The indexed query engine: given the chunk list an external index
//! produced for a region, records are pulled chunk by chunk and filtered
//! by chromosome and interval.
//!
//! The engine is the decision core of an asynchronous record stream: the
//! driver owns the reader, performs each seek and each record read, and
//! feeds the outcomes back in; the engine decides what to do next and
//! which records are yielded.

use vstd::prelude::*;
use crate::error::DecodeError;

verus! {

/// A half-open range of virtual positions identifying a contiguous run of
/// records in a compressed file.
#[derive(Clone, Copy, Debug, PartialEq, Eq, Structural)]
pub struct Chunk {
    /// The virtual position of the first record.
    pub start: u64,
    /// The exclusive virtual upper bound of the run.
    pub end: u64,
}

/// A closed 1-based genomic interval on a single chromosome.
#[derive(Clone, Copy, Debug, PartialEq, Eq, Structural)]
pub struct Interval {
    /// The 1-based inclusive start.
    pub start: u64,
    /// The 1-based inclusive end.
    pub end: u64,
}

impl Interval {
    /// Two closed intervals intersect when, as sets of positions, they
    /// share one: the larger of the starts lies no later than the smaller
    /// of the ends. An empty interval, whose end lies before its start,
    /// intersects nothing.
    pub open spec fn spec_intersects(&self, other: Interval) -> bool {
        let lo = if self.start >= other.start {
            self.start
        } else {
            other.start
        };
        let hi = if self.end <= other.end {
            self.end
        } else {
            other.end
        };
        lo <= hi
    }
}

/// A lazily decoded record view: the fields the query filter reads.
#[derive(Clone, Copy, Debug, PartialEq, Eq, Structural)]
pub struct LazyRecord {
    /// The chromosome the record is placed on.
    pub chromosome_id: u32,
    /// The 1-based start position; zero is invalid data.
    pub position: u64,
    /// The 1-based end position; zero is invalid data.
    pub end: u64,
}

impl LazyRecord {
    /// The record's positions as a closed interval.
    pub open spec fn spec_interval(&self) -> Interval {
        Interval { start: self.position, end: self.end }
    }
}

/// Whether a record intersects the queried chromosome and interval.
pub open spec fn spec_record_intersects(
    record: LazyRecord,
    chromosome_id: u32,
    interval: Interval,
) -> bool {
    record.chromosome_id == chromosome_id && record.spec_interval().spec_intersects(interval)
}

/// Tests a record against the queried chromosome and interval, rejecting
/// zero positions as invalid data.
pub fn intersects(record: &LazyRecord, chromosome_id: u32, region_interval: Interval) -> (res:
    Result<bool, DecodeError>)
    ensures
        match res {
            Ok(b) => record.position >= 1 && record.end >= 1 && b == spec_record_intersects(
                *record,
                chromosome_id,
                region_interval,
            ),
            Err(e) => e == DecodeError::InvalidData && (record.position < 1 || record.end < 1),
        },
{
    if record.position < 1 || record.end < 1 {
        return Err(DecodeError::InvalidData);
    }

    let lo = if record.position >= region_interval.start {
        record.position
    } else {
        region_interval.start
    };
    let hi = if record.end <= region_interval.end {
        record.end
    } else {
        region_interval.end
    };

    Ok(record.chromosome_id == chromosome_id && lo <= hi)
}

/// Where the engine stands: about to move to the next chunk, streaming
/// records below a chunk's upper bound, or finished.
#[derive(Clone, Copy, Debug, PartialEq, Eq, Structural)]
pub enum State {
    /// More chunks may remain; the next one must be sought.
    Seek,
    /// Records stream from the active chunk, whose exclusive virtual upper
    /// bound is carried.
    Read(u64),
    /// No more chunks.
    Done,
}

/// A query over a chunk list, filtering by chromosome and interval.
#[derive(Debug)]
pub struct Query {
    chunks: Vec<Chunk>,
    next_chunk: usize,
    chromosome_id: u32,
    interval: Interval,
    state: State,
}

/// Creates a query over `chunks`, in order, for the records of
/// `chromosome_id` intersecting `interval`.
pub fn query(chunks: Vec<Chunk>, chromosome_id: u32, interval: Interval) -> (q: Query)
    ensures
        q.wf(),
        q.spec_chunks() == chunks@,
        q.spec_next_chunk() == 0,
        q.spec_chromosome_id() == chromosome_id,
        q.spec_interval() == interval,
        q.spec_state() == State::Seek,
{
    Query { chunks, next_chunk: 0, chromosome_id, interval, state: State::Seek }
}

impl Query {
    /// The chunk list, in input order.
    pub closed spec fn spec_chunks(&self) -> Seq<Chunk> {
        self.chunks@
    }

    /// How many chunks have been entered so far.
    pub closed spec fn spec_next_chunk(&self) -> int {
        self.next_chunk as int
    }

    /// The queried chromosome.
    pub closed spec fn spec_chromosome_id(&self) -> u32 {
        self.chromosome_id
    }

    /// The queried interval.
    pub closed spec fn spec_interval(&self) -> Interval {
        self.interval
    }

    /// The engine's state.
    pub closed spec fn spec_state(&self) -> State {
        self.state
    }

    /// The chunk cursor never runs past the list.
    pub open spec fn wf(&self) -> bool {
        self.spec_next_chunk() <= self.spec_chunks().len()
    }

    /// The query settings and remaining chunks of two engine values agree.
    pub open spec fn same_query(&self, other: &Query) -> bool {
        &&& self.spec_chunks() == other.spec_chunks()
        &&& self.spec_chromosome_id() == other.spec_chromosome_id()
        &&& self.spec_interval() == other.spec_interval()
    }

    /// Whether the stream is complete.
    pub fn is_done(&self) -> (b: bool)
        ensures
            b == (self.spec_state() is Done),
    {
        match self.state {
            State::Done => true,
            _ => false,
        }
    }

    /// Enters the next chunk: returns it so the driver seeks the reader to
    /// its start, and streams below its end. With no chunk left, the
    /// stream completes.
    pub fn begin_chunk(&mut self) -> (c: Option<Chunk>)
        requires
            old(self).wf(),
            old(self).spec_state() is Seek,
        ensures
            final(self).wf(),
            final(self).same_query(old(self)),
            if old(self).spec_next_chunk() < old(self).spec_chunks().len() {
                &&& c == Some(old(self).spec_chunks()[old(self).spec_next_chunk()])
                &&& final(self).spec_next_chunk() == old(self).spec_next_chunk() + 1
                &&& final(self).spec_state() == State::Read(
                    old(self).spec_chunks()[old(self).spec_next_chunk()].end,
                )
            } else {
                &&& c is None
                &&& final(self).spec_next_chunk() == old(self).spec_next_chunk()
                &&& final(self).spec_state() == State::Done
            },
    {
        if self.next_chunk < self.chunks.len() {
            let chunk = self.chunks[self.next_chunk];
            self.next_chunk = self.next_chunk + 1;
            self.state = State::Read(chunk.end);
            Some(chunk)
        } else {
            self.state = State::Done;
            None
        }
    }

    /// Takes one record the driver read, together with the reader's
    /// virtual position after the read.
    ///
    /// The engine leaves the chunk first when the reader has reached its
    /// upper bound, then filters: the record is yielded exactly when the
    /// result is `Ok(true)`, and every yielded record lies on the queried
    /// chromosome and intersects the queried interval. A record with a
    /// zero position is invalid data and ends the stream's success.
    pub fn on_record(&mut self, record: &LazyRecord, reader_virtual_position: u64) -> (res:
        Result<bool, DecodeError>)
        requires
            old(self).wf(),
            old(self).spec_state() matches State::Read(_),
        ensures
            final(self).wf(),
            final(self).same_query(old(self)),
            final(self).spec_next_chunk() == old(self).spec_next_chunk(),
            ({
                let chunk_end = old(self).spec_state()->Read_0;
                final(self).spec_state() == if reader_virtual_position >= chunk_end {
                    State::Seek
                } else {
                    State::Read(chunk_end)
                }
            }),
            match res {
                Ok(yield_record) => record.position >= 1 && record.end >= 1 && yield_record
                    == spec_record_intersects(
                    *record,
                    old(self).spec_chromosome_id(),
                    old(self).spec_interval(),
                ),
                Err(e) => e == DecodeError::InvalidData && (record.position < 1 || record.end
                    < 1),
            },
    {
        let chunk_end = match self.state {
            State::Read(e) => e,
            _ => 0,
        };

        if reader_virtual_position >= chunk_end {
            self.state = State::Seek;
        }

        intersects(record, self.chromosome_id, self.interval)
    }

    /// Takes the driver's report that the active chunk's stream ended
    /// before reaching its upper bound: the engine moves on to the next
    /// chunk.
    pub fn on_end_of_stream(&mut self)
        requires
            old(self).wf(),
            old(self).spec_state() matches State::Read(_),
        ensures
            final(self).wf(),
            final(self).same_query(old(self)),
            final(self).spec_next_chunk() == old(self).spec_next_chunk(),
            final(self).spec_state() == State::Seek,
    {
        self.state = State::Seek;
    }
}

} // verus!
