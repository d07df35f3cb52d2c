use vstd::prelude::*;

verus! {

/// One decoded frame of a recorded answer played back in the window: `side` x `side` RGB.
#[derive(Clone)]
pub struct PlayerFrame {
    pub rgb: Vec<u8>,
    pub side: u32,
    pub seq: u64,
}

} // verus!
