//! The places of the network.
use vstd::prelude::*;

pub mod home;

verus! {

} // verus!
