use vstd::prelude::*;
use crate::errors::{ErrorKind, FlowError};

verus! {

/// Whether an I/O stream is read by the job or written by it.
#[derive(Clone, Copy, Debug, PartialEq, Eq, Structural)]
pub enum IoDirection {
    In,
    Out,
}

/// The bytes behind one I/O proxy: either the full contents of an input, or
/// the bytes accumulated so far for an output sink.
#[derive(Debug)]
pub enum IoBacking {
    InputBuffer(Vec<u8>),
    OutputBuffer(Vec<u8>),
}

/// A uniform byte source or sink registered under an `io_id`.
#[derive(Debug)]
pub struct IoProxy {
    pub io_id: i32,
    pub direction: IoDirection,
    pub backing: IoBacking,
}

impl IoProxy {
    /// The proxy's direction agrees with the kind of backing it holds.
    pub open spec fn wf(&self) -> bool {
        match self.backing {
            IoBacking::InputBuffer(_) => self.direction == IoDirection::In,
            IoBacking::OutputBuffer(_) => self.direction == IoDirection::Out,
        }
    }

    /// The bytes an input proxy offers for reading.
    pub open spec fn input_bytes(&self) -> Option<Seq<u8>> {
        match self.backing {
            IoBacking::InputBuffer(b) => Some(b@),
            IoBacking::OutputBuffer(_) => None,
        }
    }

    /// The bytes written so far to an output proxy.
    pub open spec fn output_bytes(&self) -> Option<Seq<u8>> {
        match self.backing {
            IoBacking::InputBuffer(_) => None,
            IoBacking::OutputBuffer(b) => Some(b@),
        }
    }

    /// An input proxy over a private copy of the given bytes.
    pub fn copy_slice(io_id: i32, bytes: &[u8]) -> (io: IoProxy)
        ensures
            io.wf(),
            io.io_id == io_id,
            io.direction == IoDirection::In,
            io.input_bytes() == Some(bytes@),
    {
        let mut owned: Vec<u8> = Vec::new();
        let mut i: usize = 0;
        while i < bytes.len()
            invariant
                i <= bytes@.len(),
                owned@ == bytes@.subrange(0, i as int),
            decreases bytes@.len() - i,
        {
            owned.push(bytes[i]);
            i = i + 1;
        }
        proof {
            assert(owned@ =~= bytes@);
        }
        IoProxy { io_id, direction: IoDirection::In, backing: IoBacking::InputBuffer(owned) }
    }

    /// An input proxy that takes ownership of the given bytes.
    pub fn read_vec(io_id: i32, bytes: Vec<u8>) -> (io: IoProxy)
        ensures
            io.wf(),
            io.io_id == io_id,
            io.direction == IoDirection::In,
            io.input_bytes() == Some(bytes@),
    {
        IoProxy { io_id, direction: IoDirection::In, backing: IoBacking::InputBuffer(bytes) }
    }

    /// An output proxy that accumulates every byte written to it.
    pub fn create_output_buffer(io_id: i32) -> (io: IoProxy)
        ensures
            io.wf(),
            io.io_id == io_id,
            io.direction == IoDirection::Out,
            io.output_bytes() == Some(Seq::<u8>::empty()),
    {
        IoProxy { io_id, direction: IoDirection::Out, backing: IoBacking::OutputBuffer(Vec::new()) }
    }

    /// Appends bytes to an output proxy; writing to an input proxy is refused.
    pub fn write(&mut self, bytes: &[u8]) -> (r: Result<(), FlowError>)
        ensures
            r is Ok <==> old(self).direction == IoDirection::Out && old(self).wf(),
            r is Ok ==> {
                &&& final(self).io_id == old(self).io_id
                &&& final(self).direction == old(self).direction
                &&& final(self).wf()
                &&& final(self).output_bytes() == Some(old(self).output_bytes().unwrap() + bytes@)
            },
            r is Err ==> *final(self) == *old(self) && r->Err_0.kind == ErrorKind::IoError,
    {
        match &mut self.backing {
            IoBacking::OutputBuffer(buffer) => {
                if self.direction == IoDirection::Out {
                    let mut i: usize = 0;
                    let ghost start = buffer@;
                    while i < bytes.len()
                        invariant
                            i <= bytes@.len(),
                            buffer@ == start + bytes@.subrange(0, i as int),
                        decreases bytes@.len() - i,
                    {
                        buffer.push(bytes[i]);
                        i = i + 1;
                    }
                    proof {
                        assert(buffer@ =~= start + bytes@);
                    }
                    Ok(())
                } else {
                    Err(FlowError::new(ErrorKind::IoError, String::new()))
                }
            }
            IoBacking::InputBuffer(_) => {
                Err(FlowError::new(ErrorKind::IoError, String::new()))
            }
        }
    }

    /// The bytes written so far, for an output proxy.
    pub fn get_output_buffer_bytes(&self) -> (r: Result<&Vec<u8>, FlowError>)
        ensures
            r is Ok <==> self.output_bytes() is Some,
            r is Ok ==> r->Ok_0@ == self.output_bytes().unwrap(),
            r is Err ==> r->Err_0.kind == ErrorKind::InvalidArgument,
    {
        match &self.backing {
            IoBacking::OutputBuffer(buffer) => Ok(buffer),
            IoBacking::InputBuffer(_) => {
                Err(FlowError::new(ErrorKind::InvalidArgument, String::new()))
            }
        }
    }
}

} // verus!
