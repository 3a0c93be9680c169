//! The outbound side: where decoded events go once rendered.
use vstd::prelude::*;

verus! {

/// A sink that accepts one event already rendered as a transport payload.
pub trait Aggregator<T> {
    fn do_aggregate(&mut self, body: T);
}

} // verus!
