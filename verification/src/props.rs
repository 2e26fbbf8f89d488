//! The property/attribute store protocol: assembling a long property from
//! bounded transfer chunks, and list-valued property edits.

use vstd::prelude::*;
use crate::error::MarsError;
use crate::error::MarsErrorKind;

verus! {

/// One answer of the protocol peer to a bounded property-read request.
pub struct PropertyChunk {
    /// whether the protocol call itself succeeded
    pub status_ok: bool,
    /// the property type the peer reports (0 when the property is absent)
    pub actual_type: u64,
    /// the value format the peer reports, in bits
    pub actual_format: u32,
    /// the values delivered in this chunk
    pub data: Vec<u64>,
    /// how many bytes the peer says remain after this chunk
    pub remaining_bytes: u64,
}

/// What the reader decides after one chunk.
pub enum PropertyReadStatus {
    /// more chunks are needed; ask again at `PropertyReader::offset`
    Continue,
    /// the property has been read completely
    Done,
    /// the read failed; the reader's data is meaningless
    Failed(MarsError),
}

/// Assembles a property that may exceed one transfer chunk. The caller reads
/// chunks from the peer and feeds each to `step` until it answers something
/// other than `Continue`. Every `Continue` strictly grows the assembled data,
/// so the read terminates even against a peer that reports an inconsistent
/// remaining byte count: a chunk that makes no progress is a protocol error,
/// not a retry.
pub struct PropertyReader {
    /// the property type the caller expects
    pub prop_type: u64,
    /// the values assembled so far
    pub data: Vec<u64>,
}

impl PropertyReader {
    pub fn new(prop_type: u64) -> (r: PropertyReader)
        ensures
            r.prop_type == prop_type,
            r.data@ == Seq::<u64>::empty(),
    {
        PropertyReader { prop_type, data: Vec::new() }
    }

    /// The offset, in 32-bit words, at which the next chunk must be requested.
    pub fn offset(&self) -> (r: usize)
        ensures
            r == self.data@.len() as int / 2,
    {
        self.data.len() / 2
    }

    /// The values assembled so far, in order.
    pub fn data(&self) -> (r: &Vec<u64>)
        ensures
            r@ == self.data@,
    {
        &self.data
    }

    /// Judges one chunk: a failed call, an absent property, a type or format
    /// mismatch, and a chunk without progress are each fatal; otherwise the
    /// chunk's values are appended, and the read is done when the peer
    /// reports zero remaining bytes.
    pub fn step(&mut self, chunk: PropertyChunk) -> (r: PropertyReadStatus)
        ensures
            ({
                let failed = !chunk.status_ok || (chunk.actual_type == 0 && chunk.actual_format
                    == 0 && chunk.remaining_bytes == 0) || chunk.actual_type != old(
                    self,
                ).prop_type || chunk.actual_format != 32 || (chunk.data@.len() == 0
                    && chunk.remaining_bytes != 0);
                &&& failed <==> r is Failed
                &&& (r matches PropertyReadStatus::Failed(e) ==> {
                    &&& (!chunk.status_ok ==> e.spec_kind() == MarsErrorKind::FailedRequest)
                    &&& (chunk.status_ok && chunk.actual_type == 0 && chunk.actual_format == 0
                        && chunk.remaining_bytes == 0 ==> e.spec_kind()
                        == MarsErrorKind::PropertyUnavailable)
                    &&& (chunk.status_ok && !(chunk.actual_type == 0 && chunk.actual_format == 0
                        && chunk.remaining_bytes == 0) ==> e.spec_kind()
                        == MarsErrorKind::IllegalValue)
                })
                &&& (failed ==> final(self).data@ == old(self).data@)
                &&& (!failed ==> final(self).data@ == old(self).data@ + chunk.data@)
                &&& (!failed ==> (r is Done <==> chunk.remaining_bytes == 0))
                &&& (r is Continue ==> final(self).data@.len() > old(self).data@.len())
                &&& final(self).prop_type == old(self).prop_type
            }),
    {
        if !chunk.status_ok {
            return PropertyReadStatus::Failed(MarsError::failed_request("property read"));
        }
        if chunk.actual_type == 0 && chunk.actual_format == 0 && chunk.remaining_bytes == 0 {
            return PropertyReadStatus::Failed(
                MarsError::property_unavailable("requested property"),
            );
        }
        if chunk.actual_type != self.prop_type {
            return PropertyReadStatus::Failed(
                MarsError::failed_conversion("property", "actual type", "requested type"),
            );
        }
        if chunk.actual_format != 32 {
            return PropertyReadStatus::Failed(
                MarsError::invalid_response("property format"),
            );
        }
        if chunk.data.len() == 0 && chunk.remaining_bytes != 0 {
            return PropertyReadStatus::Failed(
                MarsError::invalid_response("property read without progress"),
            );
        }
        let mut i: usize = 0;
        let n = chunk.data.len();
        while i < n
            invariant
                i <= n,
                n == chunk.data@.len(),
                self.data@ == old(self).data@ + chunk.data@.subrange(0, i as int),
                self.prop_type == old(self).prop_type,
            decreases n - i,
        {
            self.data.push(chunk.data[i]);
            proof {
                assert(self.data@ =~= old(self).data@ + chunk.data@.subrange(0, i + 1));
            }
            i = i + 1;
        }
        proof {
            assert(chunk.data@.subrange(0, n as int) =~= chunk.data@);
        }
        if chunk.remaining_bytes == 0 {
            PropertyReadStatus::Done
        } else {
            PropertyReadStatus::Continue
        }
    }
}

/// The multiset-free part of a state-list update: appends the state atom
/// unless the list already holds it.
pub fn add_state(states: &mut Vec<u64>, state: u64)
    ensures
        old(states)@.contains(state) ==> final(states)@ == old(states)@,
        !old(states)@.contains(state) ==> final(states)@ == old(states)@.push(state),
{
    let n = states.len();
    let mut i: usize = 0;
    while i < n
        invariant
            i <= n,
            n == states@.len(),
            states@ == old(states)@,
            forall|j: int| 0 <= j < i ==> states@[j] != state,
        decreases n - i,
    {
        if states[i] == state {
            proof {
                assert(states@[i as int] == state);
            }
            return ;
        }
        i = i + 1;
    }
    states.push(state);
}

/// All entries of `s` except those equal to `c`, in order.
pub open spec fn without(s: Seq<u64>, c: u64) -> Seq<u64>
    decreases s.len(),
{
    if s.len() == 0 {
        s
    } else if s.last() == c {
        without(s.drop_last(), c)
    } else {
        without(s.drop_last(), c).push(s.last())
    }
}

/// Removes every occurrence of the state atom, keeping the order of the rest.
pub fn remove_state(states: &mut Vec<u64>, state: u64)
    ensures
        final(states)@ == without(old(states)@, state),
{
    let n = states.len();
    let mut r: Vec<u64> = Vec::new();
    let mut i: usize = 0;
    while i < n
        invariant
            i <= n,
            n == states@.len(),
            states@ == old(states)@,
            r@ == without(states@.subrange(0, i as int), state),
        decreases n - i,
    {
        proof {
            assert(states@.subrange(0, i + 1).drop_last() =~= states@.subrange(0, i as int));
            assert(states@.subrange(0, i + 1).last() == states@[i as int]);
        }
        if states[i] != state {
            r.push(states[i]);
        }
        i = i + 1;
    }
    proof {
        assert(states@.subrange(0, n as int) =~= states@);
    }
    *states = r;
}

} // verus!
