//! The per-invocation entry points and the persisted oracle state.

use crate::codec::decoded_samples;
use crate::consensus::{accepts, median, median_spec, verify, Verdict};
use crate::window::{evict_push, SampleWindow, DEFAULT_CAPACITY};
use crate::{Error, Origin};
use vstd::prelude::*;

verus! {

/// Default maximum allowed absolute difference between a proposed price
/// and the current window median.
pub const MAX_DRIFT: u64 = 10;

/// Whether a window with the given contents and tolerance lets a
/// proposed price through: an empty window accepts unconditionally
/// (there is no history to contradict), and otherwise the proposal must
/// drift from the window median by at most the tolerance.
pub open spec fn accepted_for(window: Seq<u64>, tolerance: u64, proposed: u64) -> bool {
    window.len() == 0 || accepts(proposed, median_spec(window), tolerance)
}

/// Only the block-production inherent mechanism may submit a price.
pub fn is_privileged_caller(origin: Origin) -> (b: bool)
    ensures
        b == (origin == Origin::Inherent),
{
    match origin {
        Origin::Inherent => true,
        Origin::External => false,
    }
}

/// The module's persisted state: the rolling sample window, the latest
/// accepted price, and the configured drift tolerance. Exactly one
/// invocation per block reads and writes it; a rejected invocation
/// leaves it untouched.
pub struct Oracle {
    window: SampleWindow,
    current_price: u64,
    tolerance: u64,
}

impl Oracle {
    /// The ordered window contents, oldest sample first.
    pub closed spec fn window_view(&self) -> Seq<u64> {
        self.window@
    }

    /// The latest accepted price; zero before the first acceptance.
    pub closed spec fn spec_current_price(&self) -> u64 {
        self.current_price
    }

    pub closed spec fn spec_tolerance(&self) -> u64 {
        self.tolerance
    }

    pub closed spec fn spec_capacity(&self) -> nat {
        self.window.spec_capacity()
    }

    /// Invariant of every reachable state: the window is well formed,
    /// and once at least one sample has been accepted, the current price
    /// is the most recently appended window element.
    pub closed spec fn wf(&self) -> bool {
        &&& self.window.wf()
        &&& self.window@.len() > 0 ==> self.current_price == self.window@.last()
    }

    /// Law: in every well-formed state with history, the authoritative
    /// current price is the most recently accepted sample.
    pub proof fn lemma_current_price_is_most_recent(&self)
        requires
            self.wf(),
            self.window_view().len() > 0,
        ensures
            self.spec_current_price() == self.window_view().last(),
    {
    }

    /// The genesis state: an empty window, a zero current price, and the
    /// given configuration.
    pub fn new(capacity: usize, tolerance: u64) -> (o: Oracle)
        requires
            capacity >= 1,
        ensures
            o.wf(),
            o.window_view() == Seq::<u64>::empty(),
            o.spec_current_price() == 0,
            o.spec_tolerance() == tolerance,
            o.spec_capacity() == capacity,
    {
        Oracle { window: SampleWindow::new(capacity), current_price: 0, tolerance }
    }

    /// The genesis state with the build-time default configuration.
    pub fn with_defaults() -> (o: Oracle)
        ensures
            o.wf(),
            o.window_view() == Seq::<u64>::empty(),
            o.spec_current_price() == 0,
            o.spec_tolerance() == MAX_DRIFT,
            o.spec_capacity() == DEFAULT_CAPACITY,
    {
        Oracle::new(DEFAULT_CAPACITY, MAX_DRIFT)
    }

    /// Rebuilds the state that an earlier invocation persisted.
    pub fn from_state(window: SampleWindow, current_price: u64, tolerance: u64) -> (o: Oracle)
        requires
            window.wf(),
            window@.len() > 0 ==> current_price == window@.last(),
        ensures
            o.wf(),
            o.window_view() == window@,
            o.spec_current_price() == current_price,
            o.spec_tolerance() == tolerance,
            o.spec_capacity() == window.spec_capacity(),
    {
        Oracle { window, current_price, tolerance }
    }

    /// The authoritative current price, readable by any other on-chain
    /// component.
    pub fn get_current_price(&self) -> (p: u64)
        ensures
            p == self.spec_current_price(),
    {
        self.current_price
    }

    /// Read-only view of the window contents, oldest sample first.
    pub fn window_snapshot(&self) -> (s: &Vec<u64>)
        ensures
            s@ == self.window_view(),
    {
        self.window.snapshot()
    }

    pub fn tolerance(&self) -> (t: u64)
        ensures
            t == self.spec_tolerance(),
    {
        self.tolerance
    }

    pub fn capacity(&self) -> (c: usize)
        ensures
            c == self.spec_capacity(),
    {
        self.window.capacity()
    }

    /// The per-invocation entry point. Computes the median of the
    /// current window, accepts the proposed price iff it drifts from
    /// that median by at most the tolerance (an empty window accepts
    /// unconditionally), and on acceptance rotates it into the window
    /// and makes it the current price. A rejected proposal is fatal for
    /// the invocation and changes nothing.
    pub fn process(&mut self, proposed: u64) -> (r: Result<(), Error>)
        requires
            old(self).wf(),
        ensures
            final(self).wf(),
            final(self).spec_tolerance() == old(self).spec_tolerance(),
            final(self).spec_capacity() == old(self).spec_capacity(),
            r is Ok <==> accepted_for(
                old(self).window_view(),
                old(self).spec_tolerance(),
                proposed,
            ),
            r is Ok ==> final(self).window_view() == evict_push(
                old(self).window_view(),
                old(self).spec_capacity(),
                proposed,
            ) && final(self).spec_current_price() == proposed,
            old(self).window_view().len() == 0 ==> r is Ok && final(self).window_view() == seq![
                proposed,
            ],
            r is Err ==> r == Err::<(), Error>(Error::DriftExceeded)
                && final(self).window_view() == old(self).window_view()
                && final(self).spec_current_price() == old(self).spec_current_price(),
    {
        if self.window.len() == 0 {
            self.window.insert(proposed);
            self.current_price = proposed;
            proof {
                assert(self.window@ =~= seq![proposed]);
            }
            Ok(())
        } else {
            let reference = median(self.window.snapshot());
            match verify(proposed, reference, self.tolerance) {
                Verdict::Accept => {
                    self.window.insert(proposed);
                    self.current_price = proposed;
                    Ok(())
                },
                Verdict::Reject => Err(Error::DriftExceeded),
            }
        }
    }

    /// The single mutating entry point the host calls once per block.
    /// A caller outside the privileged inherent path is turned away
    /// before any logic runs; otherwise the proposal is processed as by
    /// [`Oracle::process`].
    pub fn submit_price(&mut self, origin: Origin, proposed: u64) -> (r: Result<(), Error>)
        requires
            old(self).wf(),
        ensures
            final(self).wf(),
            final(self).spec_tolerance() == old(self).spec_tolerance(),
            final(self).spec_capacity() == old(self).spec_capacity(),
            origin != Origin::Inherent ==> r == Err::<(), Error>(Error::Unauthorized)
                && final(self).window_view() == old(self).window_view()
                && final(self).spec_current_price() == old(self).spec_current_price(),
            origin == Origin::Inherent ==> {
                &&& (r is Ok <==> accepted_for(
                    old(self).window_view(),
                    old(self).spec_tolerance(),
                    proposed,
                ))
                &&& (r is Ok ==> final(self).window_view() == evict_push(
                    old(self).window_view(),
                    old(self).spec_capacity(),
                    proposed,
                ) && final(self).spec_current_price() == proposed)
                &&& (r is Err ==> r == Err::<(), Error>(Error::DriftExceeded)
                    && final(self).window_view() == old(self).window_view()
                    && final(self).spec_current_price() == old(self).spec_current_price())
            },
    {
        if !is_privileged_caller(origin) {
            return Err(Error::Unauthorized);
        }
        self.process(proposed)
    }
}

/// Interprets what the host handed over for this block: a missing-data
/// signal, or the encoded samples it carried.
pub fn extract_inherent_data(data: Option<&Vec<u8>>) -> (r: Result<Vec<u64>, Error>)
    ensures
        data is None ==> r == Err::<Vec<u64>, Error>(Error::MissingData),
        data matches Some(b) ==> (if b@.len() % 8 == 0 {
            r is Ok && r->Ok_0@ == decoded_samples(b@)
        } else {
            r == Err::<Vec<u64>, Error>(Error::DecodingError)
        }),
{
    match data {
        None => Err(Error::MissingData),
        Some(bytes) => crate::codec::decode_samples(bytes),
    }
}

/// Derives the price the block producer should submit from the inherent
/// data of this block: the median of the samples the host handed over.
pub fn create_inherent(data: Option<&Vec<u8>>) -> (r: Result<u64, Error>)
    ensures
        data is None ==> r == Err::<u64, Error>(Error::MissingData),
        data matches Some(b) ==> (if b@.len() % 8 != 0 {
            r == Err::<u64, Error>(Error::DecodingError)
        } else if decoded_samples(b@).len() == 0 {
            r == Err::<u64, Error>(Error::MissingData)
        } else {
            r == Ok::<u64, Error>(median_spec(decoded_samples(b@)))
        }),
{
    match extract_inherent_data(data) {
        Err(e) => Err(e),
        Ok(samples) => {
            if samples.len() == 0 {
                Err(Error::MissingData)
            } else {
                Ok(median(&samples))
            }
        },
    }
}

} // verus!
