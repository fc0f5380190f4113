use vstd::prelude::*;

verus! {

/// The closed set of error categories that operations on a job report.
#[derive(Clone, Copy, Debug, PartialEq, Eq, Structural)]
pub enum ErrorKind {
    OutOfMemory,
    AllocationFailed,
    FailedBorrow,
    InvalidArgument,
    IoOpenError,
    IoError,
    IoIdNotFound,
    DuplicateIoId,
    CodecNotFound,
    ImageDecodingError,
    ImageEncodingError,
    SizeLimitExceeded,
    Cancelled,
    GraphInvalid,
    NodeError,
    InternalError,
}

/// One place an error passed through on its way out of the job.
#[derive(Debug, Clone)]
pub struct ErrorLocation {
    pub file: String,
    pub line: i32,
}

/// An error raised inside a job. It carries its category, a message, and the
/// stack of places it passed through while bubbling up.
#[derive(Debug)]
pub struct FlowError {
    pub kind: ErrorKind,
    pub message: String,
    pub locations: Vec<ErrorLocation>,
}

impl FlowError {
    pub fn new(kind: ErrorKind, message: String) -> (e: FlowError)
        ensures
            e.kind == kind,
            e.message == message,
            e.locations@.len() == 0,
    {
        FlowError { kind, message, locations: Vec::new() }
    }

    /// Records one more place the error passed through on its way out.
    pub fn at(self, file: String, line: i32) -> (e: FlowError)
        ensures
            e.kind == self.kind,
            e.message == self.message,
            e.locations@ == self.locations@.push(ErrorLocation { file, line }),
    {
        let mut e = self;
        e.locations.push(ErrorLocation { file, line });
        e
    }

    pub fn kind(&self) -> (k: ErrorKind)
        ensures
            k == self.kind,
    {
        self.kind
    }
}

/// The single buffer through which a job presents errors to its caller.
/// It holds at most one error; once set, later errors are dropped so that
/// the first failure of the job is the one reported.
#[derive(Debug)]
pub struct OutwardErrorBuffer {
    error: Option<FlowError>,
}

impl OutwardErrorBuffer {
    pub closed spec fn view(&self) -> Option<FlowError> {
        self.error
    }

    pub fn new() -> (b: OutwardErrorBuffer)
        ensures
            b@ is None,
    {
        OutwardErrorBuffer { error: None }
    }

    pub fn has_error(&self) -> (r: bool)
        ensures
            r == self@ is Some,
    {
        self.error.is_some()
    }

    /// Stores the error if the buffer is still empty; the first error wins.
    /// Returns whether the error was stored.
    pub fn try_set_error(&mut self, error: FlowError) -> (stored: bool)
        ensures
            stored == old(self)@ is None,
            stored ==> final(self)@ == Some(error),
            !stored ==> final(self)@ == old(self)@,
    {
        if self.error.is_none() {
            self.error = Some(error);
            true
        } else {
            false
        }
    }

    pub fn get_error(&self) -> (r: &Option<FlowError>)
        ensures
            *r == self@,
    {
        &self.error
    }
}

} // verus!
