use vstd::prelude::*;

verus! {

/// One protocol message: a 32-bit length and exactly that many payload bytes.
pub struct SshAgentMessage {
    pub length: u32,
    pub payload: Vec<u8>,
}

impl SshAgentMessage {
    /// The length field agrees with the payload.
    pub open spec fn wf(&self) -> bool {
        self.payload@.len() == self.length as nat
    }

    pub fn new(length: u32, payload: Vec<u8>) -> (r: Self)
        requires
            payload@.len() == length as nat,
        ensures
            r.length == length,
            r.payload@ == payload@,
            r.wf(),
    {
        SshAgentMessage { length, payload }
    }
}

} // verus!
