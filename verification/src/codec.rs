use vstd::prelude::*;

verus! {

/// The context of a connection of the message protocol.
#[allow(non_camel_case_types)]
#[derive(Clone)]
pub struct rpcNode {}

/// The codec of the message protocol.
#[derive(Copy, Clone)]
pub struct Codec {}

} // verus!
