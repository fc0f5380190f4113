use vstd::prelude::*;
use crate::errors::{ErrorKind, FlowError};
use crate::image_png_decoder::{ImagePngDecoder, spec_has_png_signature};
use crate::io::{IoDirection, IoProxy};

verus! {

/// Which codecs this job may select when sniffing an input's signature.
#[derive(Clone, Copy, Debug, PartialEq, Eq, Structural)]
pub struct EnabledCodecs {
    pub png: bool,
}

impl Default for EnabledCodecs {
    /// Every codec the library ships is enabled.
    fn default() -> (r: EnabledCodecs)
        ensures
            r.png == true,
    {
        EnabledCodecs { png: true }
    }
}

/// What one codec instance holds: a decoder over an input stream, or the
/// output sink an encoder writes to.
pub enum CodecKind {
    Decoder(ImagePngDecoder),
    OutputSink(IoProxy),
}

/// Binds one I/O stream to one decoder or output sink, identified by its
/// `io_id` and direction.
pub struct CodecInstanceContainer {
    pub io_id: i32,
    pub direction: IoDirection,
    pub codec: CodecKind,
}

impl CodecInstanceContainer {
    pub closed spec fn spec_codec(&self) -> CodecKind {
        self.codec
    }

    /// The direction agrees with what is held, and the held value carries the
    /// container's own `io_id`.
    pub open spec fn wf(&self) -> bool {
        match self.spec_codec() {
            CodecKind::Decoder(d) => self.direction == IoDirection::In
                && d.spec_io_id() == self.io_id,
            CodecKind::OutputSink(io) => self.direction == IoDirection::Out
                && io.wf() && io.direction == IoDirection::Out && io.io_id == self.io_id,
        }
    }

    /// The input bytes the decoder reads, when this container holds a decoder.
    pub open spec fn decoder_bytes(&self) -> Option<Seq<u8>> {
        match self.spec_codec() {
            CodecKind::Decoder(d) => Some(d.spec_bytes()),
            CodecKind::OutputSink(_) => None,
        }
    }

    /// The bytes written so far, when this container holds an output sink.
    pub open spec fn output_bytes(&self) -> Option<Seq<u8>> {
        match self.spec_codec() {
            CodecKind::Decoder(_) => None,
            CodecKind::OutputSink(io) => io.output_bytes(),
        }
    }

    /// Wraps one I/O proxy. For the input direction, selects a decoder by the
    /// stream's signature and lets it read the stream's header at once:
    /// `CodecNotFound` reports a signature no enabled codec claims, and
    /// `ImageDecodingError` a claimed stream whose header does not parse.
    pub fn create(io: IoProxy, io_id: i32, direction: IoDirection, enabled: &EnabledCodecs) -> (r:
        Result<CodecInstanceContainer, FlowError>)
        requires
            io.wf(),
            io.direction == direction,
            io.io_id == io_id,
        ensures
            r is Ok <==> (direction == IoDirection::Out
                || (enabled.png && io.input_bytes() is Some
                    && spec_has_png_signature(io.input_bytes()->0)
                    && crate::image_png_decoder::png_dimensions_of(io.input_bytes()->0)
                        is Some)),
            r is Ok ==> {
                let c = r->Ok_0;
                &&& c.wf()
                &&& c.io_id == io_id
                &&& c.direction == direction
                &&& (direction == IoDirection::In ==> c.decoder_bytes() == io.input_bytes())
                &&& (direction == IoDirection::Out ==> c.output_bytes() == io.output_bytes())
            },
            r is Err ==> (r->Err_0.kind == ErrorKind::CodecNotFound <==>
                !(enabled.png && io.input_bytes() is Some
                    && spec_has_png_signature(io.input_bytes()->0))),
            r is Err ==> (r->Err_0.kind == ErrorKind::CodecNotFound
                || r->Err_0.kind == ErrorKind::ImageDecodingError),
    {
        match direction {
            IoDirection::Out => {
                Ok(CodecInstanceContainer { io_id, direction, codec: CodecKind::OutputSink(io) })
            }
            IoDirection::In => {
                if !enabled.png {
                    return Err(FlowError::new(ErrorKind::CodecNotFound,
                        "no enabled codec matches the stream".to_string()));
                }
                match ImagePngDecoder::create(io, io_id) {
                    Ok(d) => Ok(CodecInstanceContainer {
                        io_id,
                        direction,
                        codec: CodecKind::Decoder(d),
                    }),
                    Err(e) => Err(e),
                }
            }
        }
    }

    /// The decoder held by this container; `InvalidArgument` reports an
    /// output-direction container.
    pub fn get_decoder(&self) -> (r: Result<&ImagePngDecoder, FlowError>)
        ensures
            r is Ok <==> self.spec_codec() is Decoder,
            r is Ok ==> Some(r->Ok_0.spec_bytes()) == self.decoder_bytes(),
            r is Ok ==> self.wf() ==> r->Ok_0.spec_io_id() == self.io_id,
            r is Err ==> r->Err_0.kind == ErrorKind::InvalidArgument,
    {
        match &self.codec {
            CodecKind::Decoder(d) => Ok(d),
            CodecKind::OutputSink(_) => Err(FlowError::new(ErrorKind::InvalidArgument,
                "the io_id names an output, not a decoder".to_string())),
        }
    }

    /// The output proxy held by this container, when it is an output sink.
    pub fn get_encode_io(&self) -> (r: Option<&IoProxy>)
        ensures
            r is Some <==> self.spec_codec() is OutputSink,
            r is Some ==> r->0.output_bytes() == self.output_bytes(),
    {
        match &self.codec {
            CodecKind::OutputSink(io) => Some(io),
            CodecKind::Decoder(_) => None,
        }
    }

    /// Appends encoded bytes to this container's output sink.
    /// `InvalidArgument` reports a decoder container, which takes no bytes.
    pub fn write_to_output(&mut self, bytes: &[u8]) -> (r: Result<(), FlowError>)
        requires
            old(self).wf(),
        ensures
            final(self).wf(),
            final(self).io_id == old(self).io_id,
            final(self).direction == old(self).direction,
            r is Ok <==> old(self).spec_codec() is OutputSink,
            r is Ok ==> final(self).output_bytes()
                == Some(old(self).output_bytes()->0 + bytes@),
            r is Ok ==> final(self).decoder_bytes() == old(self).decoder_bytes(),
            r is Err ==> *final(self) == *old(self)
                && r->Err_0.kind == ErrorKind::InvalidArgument,
    {
        match &mut self.codec {
            CodecKind::OutputSink(io) => {
                match io.write(bytes) {
                    Ok(()) => Ok(()),
                    Err(_) => {
                        proof {
                            assert(false);
                        }
                        Err(FlowError::new(ErrorKind::InvalidArgument, String::new()))
                    }
                }
            }
            CodecKind::Decoder(_) => Err(FlowError::new(ErrorKind::InvalidArgument,
                "the io_id names a decoder, not an output".to_string())),
        }
    }
}

struct CodecSlot {
    io_id: i32,
    container: Option<CodecInstanceContainer>,
}

/// The codec instances of one job, keyed by `io_id`. Each instance is handed
/// out exclusively: while one is checked out, further requests for it report
/// a failed borrow.
pub struct CodecsContainer {
    slots: Vec<CodecSlot>,
}

impl CodecsContainer {
    /// The registered io_ids, in the order they were added.
    pub closed spec fn io_ids(&self) -> Seq<i32> {
        Seq::new(self.slots@.len(), |i: int| self.slots@[i].io_id)
    }

    pub open spec fn slot_count(&self) -> nat {
        self.io_ids().len()
    }

    /// io_ids are unique; every container in place is well formed and carries
    /// its slot's io_id.
    pub closed spec fn wf(&self) -> bool {
        &&& forall|i: int, j: int| 0 <= i < j < self.slots@.len() ==>
            (#[trigger] self.slots@[i].io_id) != (#[trigger] self.slots@[j].io_id)
        &&& forall|i: int| 0 <= i < self.slots@.len() ==>
            ((#[trigger] self.slots@[i].container) is Some ==>
                self.slots@[i].container->0.wf()
                    && self.slots@[i].container->0.io_id == self.slots@[i].io_id)
    }

    pub closed spec fn contains_io_id(&self, io_id: i32) -> bool {
        exists|i: int| 0 <= i < self.slots@.len() && (#[trigger] self.slots@[i].io_id) == io_id
    }

    /// Whether the codec under this io_id is currently checked out.
    pub closed spec fn is_borrowed(&self, io_id: i32) -> bool {
        exists|i: int| 0 <= i < self.slots@.len() && (#[trigger] self.slots@[i].io_id) == io_id
            && self.slots@[i].container is None
    }

    /// The codec registered under the io_id, when present and not checked out.
    pub closed spec fn codec_of(&self, io_id: i32) -> Option<CodecInstanceContainer> {
        if exists|i: int| 0 <= i < self.slots@.len() && (#[trigger] self.slots@[i].io_id) == io_id
            && self.slots@[i].container is Some {
            let i = choose|i: int| 0 <= i < self.slots@.len()
                && (#[trigger] self.slots@[i].io_id) == io_id && self.slots@[i].container is Some;
            self.slots@[i].container
        } else {
            Option::None
        }
    }

    /// Whether any codec of the container is checked out.
    pub closed spec fn any_borrowed(&self) -> bool {
        exists|i: int| 0 <= i < self.slots@.len() && (#[trigger] self.slots@[i].container) is None
    }

    /// What the lookup spec functions say about the slot at index `i`.
    proof fn lemma_slot_lookup(&self, i: int)
        requires
            self.wf(),
            0 <= i < self.slots@.len(),
        ensures
            forall|j: int| 0 <= j < self.slots@.len() && j != i ==>
                (#[trigger] self.slots@[j].io_id) != self.slots@[i].io_id,
            self.contains_io_id(self.slots@[i].io_id),
            self.is_borrowed(self.slots@[i].io_id) == (self.slots@[i].container is None),
            self.codec_of(self.slots@[i].io_id)
                == if self.slots@[i].container is Some { self.slots@[i].container } else {
                    Option::<CodecInstanceContainer>::None
                },
    {
        let id = self.slots@[i].io_id;
        if self.slots@[i].container is Some {
            let j = choose|j: int| 0 <= j < self.slots@.len()
                && (#[trigger] self.slots@[j].io_id) == id && self.slots@[j].container is Some;
            assert(j == i);
            if self.is_borrowed(id) {
                let k = choose|k: int| 0 <= k < self.slots@.len()
                    && (#[trigger] self.slots@[k].io_id) == id && self.slots@[k].container is None;
                assert(k == i);
            }
        } else {
            assert(self.is_borrowed(id));
            if exists|j: int| 0 <= j < self.slots@.len()
                && (#[trigger] self.slots@[j].io_id) == id && self.slots@[j].container is Some {
                let j = choose|j: int| 0 <= j < self.slots@.len()
                    && (#[trigger] self.slots@[j].io_id) == id
                    && self.slots@[j].container is Some;
                assert(j == i);
            }
        }
    }

    /// Lookups of io_ids other than the one at the updated slot are unchanged
    /// by an update that keeps the slot's io_id.
    proof fn lemma_update_other_ids(&self, upd: &Self, i: int, id: i32)
        requires
            self.wf(),
            0 <= i < self.slots@.len(),
            upd.slots@.len() == self.slots@.len(),
            forall|j: int| 0 <= j < self.slots@.len() && j != i ==>
                #[trigger] upd.slots@[j] == self.slots@[j],
            upd.slots@[i].io_id == self.slots@[i].io_id,
            id != self.slots@[i].io_id,
        ensures
            upd.contains_io_id(id) == self.contains_io_id(id),
            upd.is_borrowed(id) == self.is_borrowed(id),
            upd.codec_of(id) == self.codec_of(id),
    {
        assert forall|j: int| 0 <= j < self.slots@.len() implies
            (#[trigger] upd.slots@[j].io_id) == self.slots@[j].io_id by {
            if j != i {
            }
        }
        if self.contains_io_id(id) {
            let j = choose|j: int| 0 <= j < self.slots@.len()
                && (#[trigger] self.slots@[j].io_id) == id;
            self.lemma_slot_lookup(j);
            assert(upd.slots@[j].io_id == id && upd.slots@[j] == self.slots@[j]);
            if self.is_borrowed(id) {
                let jb = choose|jb: int| 0 <= jb < self.slots@.len()
                    && (#[trigger] self.slots@[jb].io_id) == id
                    && self.slots@[jb].container is None;
                assert(jb == j);
            }
            if upd.is_borrowed(id) {
                let jb = choose|jb: int| 0 <= jb < upd.slots@.len()
                    && (#[trigger] upd.slots@[jb].io_id) == id
                    && upd.slots@[jb].container is None;
                assert(self.slots@[jb].io_id == id);
                assert(jb == j);
            }
            if exists|js: int| 0 <= js < self.slots@.len()
                && (#[trigger] self.slots@[js].io_id) == id
                && self.slots@[js].container is Some {
                let js = choose|js: int| 0 <= js < self.slots@.len()
                    && (#[trigger] self.slots@[js].io_id) == id
                    && self.slots@[js].container is Some;
                assert(js == j);
                assert(self.codec_of(id) == self.slots@[j].container);
                assert(upd.slots@[j].io_id == id && upd.slots@[j].container is Some);
                let ju = choose|ju: int| 0 <= ju < upd.slots@.len()
                    && (#[trigger] upd.slots@[ju].io_id) == id
                    && upd.slots@[ju].container is Some;
                assert(self.slots@[ju].io_id == id);
                assert(ju == j);
                assert(upd.codec_of(id) == upd.slots@[j].container);
            } else {
                assert(self.codec_of(id) is None);
                if exists|ju: int| 0 <= ju < upd.slots@.len()
                    && (#[trigger] upd.slots@[ju].io_id) == id
                    && upd.slots@[ju].container is Some {
                    let ju = choose|ju: int| 0 <= ju < upd.slots@.len()
                        && (#[trigger] upd.slots@[ju].io_id) == id
                        && upd.slots@[ju].container is Some;
                    assert(self.slots@[ju].io_id == id && self.slots@[ju].container is Some);
                    assert(false);
                }
                assert(upd.codec_of(id) is None);
            }
        } else {
            if upd.contains_io_id(id) {
                let j = choose|j: int| 0 <= j < upd.slots@.len()
                    && (#[trigger] upd.slots@[j].io_id) == id;
                assert(self.slots@[j].io_id == id);
                assert(false);
            }
            assert(!self.is_borrowed(id) && !upd.is_borrowed(id));
            assert(self.codec_of(id) is None && upd.codec_of(id) is None);
        }
    }

    /// The registered io_ids are pairwise distinct.
    pub proof fn lemma_io_ids_unique(&self)
        requires
            self.wf(),
        ensures
            forall|i: int, j: int| 0 <= i < j < self.io_ids().len() ==>
                (#[trigger] self.io_ids()[i]) != (#[trigger] self.io_ids()[j]),
    {
    }

    /// An io_id stands in the io_id sequence exactly when a slot carries it.
    pub proof fn lemma_io_ids_match(&self)
        ensures
            forall|io_id: i32| #[trigger] self.io_ids().contains(io_id)
                == self.contains_io_id(io_id),
    {
        assert forall|io_id: i32| #[trigger] self.io_ids().contains(io_id)
            == self.contains_io_id(io_id) by {
            if self.io_ids().contains(io_id) {
                let k = choose|k: int| 0 <= k < self.io_ids().len()
                    && self.io_ids()[k] == io_id;
                assert(self.slots@[k].io_id == io_id);
            }
            if self.contains_io_id(io_id) {
                let k = choose|k: int| 0 <= k < self.slots@.len()
                    && (#[trigger] self.slots@[k].io_id) == io_id;
                assert(self.io_ids()[k] == io_id);
                assert(self.io_ids().contains(io_id));
            }
        }
    }

    pub fn with_capacity(capacity: usize) -> (c: CodecsContainer)
        ensures
            c.wf(),
            c.slot_count() == 0,
            !c.any_borrowed(),
    {
        CodecsContainer { slots: Vec::with_capacity(capacity) }
    }

    pub fn len(&self) -> (n: usize)
        ensures
            n == self.slot_count(),
    {
        self.slots.len()
    }

    /// Registers a codec under its io_id, which must be fresh.
    pub fn add(&mut self, container: CodecInstanceContainer)
        requires
            old(self).wf(),
            container.wf(),
            !old(self).contains_io_id(container.io_id),
        ensures
            final(self).wf(),
            final(self).io_ids() == old(self).io_ids().push(container.io_id),
            final(self).contains_io_id(container.io_id),
            !final(self).is_borrowed(container.io_id),
            final(self).codec_of(container.io_id) == Some(container),
            final(self).any_borrowed() == old(self).any_borrowed(),
            forall|id: i32|
                #![trigger final(self).contains_io_id(id)]
                #![trigger final(self).codec_of(id)]
                #![trigger final(self).is_borrowed(id)]
                id != container.io_id ==>
                    final(self).contains_io_id(id) == old(self).contains_io_id(id)
                        && final(self).codec_of(id) == old(self).codec_of(id)
                        && (final(self).is_borrowed(id) == old(self).is_borrowed(id)),
    {
        let ghost prev = *self;
        let io_id = container.io_id;
        self.slots.push(CodecSlot { io_id, container: Some(container) });
        proof {
            let n = prev.slots@.len() as int;
            assert(self.slots@[n].io_id == io_id);
            assert forall|a: int, b: int| 0 <= a < b < self.slots@.len() implies
                (#[trigger] self.slots@[a].io_id) != (#[trigger] self.slots@[b].io_id) by {
                if b < n {
                    assert(self.slots@[a] == prev.slots@[a]);
                    assert(self.slots@[b] == prev.slots@[b]);
                } else {
                    assert(self.slots@[a] == prev.slots@[a]);
                    if prev.slots@[a].io_id == io_id {
                        assert(prev.contains_io_id(io_id));
                        assert(false);
                    }
                }
            }
            assert forall|j: int| 0 <= j < self.slots@.len() implies
                ((#[trigger] self.slots@[j].container) is Some ==>
                    self.slots@[j].container->0.wf()
                        && self.slots@[j].container->0.io_id == self.slots@[j].io_id) by {
                if j < n {
                    assert(self.slots@[j] == prev.slots@[j]);
                }
            }
            assert(self.wf());
            self.lemma_slot_lookup(n);
            assert(self.io_ids() =~= prev.io_ids().push(io_id));
            if self.any_borrowed() {
                let j = choose|j: int| 0 <= j < self.slots@.len()
                    && (#[trigger] self.slots@[j].container) is None;
                assert(j != n);
                assert(prev.slots@[j].container is None);
            }
            if prev.any_borrowed() {
                let j = choose|j: int| 0 <= j < prev.slots@.len()
                    && (#[trigger] prev.slots@[j].container) is None;
                assert(self.slots@[j].container is None);
            }
            assert forall|id: i32|
                #![trigger self.contains_io_id(id)]
                #![trigger self.codec_of(id)]
                #![trigger self.is_borrowed(id)]
                id != io_id implies
                    self.contains_io_id(id) == prev.contains_io_id(id)
                        && self.codec_of(id) == prev.codec_of(id)
                        && (self.is_borrowed(id) == prev.is_borrowed(id)) by {
                lemma_codec_push_other_ids(&prev, self, id);
            }
        }
    }

    /// Checks the codec under `io_id` out exclusively. While it, or any codec
    /// the scan cannot see past, is checked out and no accessible match
    /// exists, reports `FailedBorrow`; with nothing checked out and no match,
    /// `IoIdNotFound`.
    pub fn checkout(&mut self, io_id: i32) -> (r: Result<CodecInstanceContainer, FlowError>)
        requires
            old(self).wf(),
        ensures
            final(self).wf(),
            r is Ok <==> old(self).contains_io_id(io_id) && !old(self).is_borrowed(io_id),
            r is Ok ==> {
                let c = r->Ok_0;
                &&& Some(c) == old(self).codec_of(io_id)
                &&& c.io_id == io_id
                &&& c.wf()
                &&& final(self).contains_io_id(io_id)
                &&& final(self).is_borrowed(io_id)
                &&& final(self).codec_of(io_id) is None
                &&& final(self).io_ids() == old(self).io_ids()
                &&& forall|id: i32|
                    #![trigger final(self).contains_io_id(id)]
                    #![trigger final(self).codec_of(id)]
                    #![trigger final(self).is_borrowed(id)]
                    id != io_id ==>
                        final(self).contains_io_id(id) == old(self).contains_io_id(id)
                            && final(self).codec_of(id) == old(self).codec_of(id)
                            && (final(self).is_borrowed(id) == old(self).is_borrowed(id))
            },
            r is Err ==> *final(self) == *old(self),
            r is Err ==> (r->Err_0.kind == ErrorKind::FailedBorrow <==> old(self).any_borrowed()),
            r is Err ==> (r->Err_0.kind == ErrorKind::FailedBorrow
                || r->Err_0.kind == ErrorKind::IoIdNotFound),
    {
        let ghost orig = *old(self);
        let mut saw_borrowed = false;
        let mut i: usize = 0;
        while i < self.slots.len()
            invariant
                *self == orig,
                orig == *old(self),
                orig.wf(),
                i <= self.slots@.len(),
                forall|k: int| 0 <= k < i ==>
                    !((#[trigger] self.slots@[k].io_id) == io_id
                        && self.slots@[k].container is Some),
                saw_borrowed == exists|k: int| 0 <= k < i
                    && (#[trigger] self.slots@[k].container) is None,
            decreases self.slots@.len() - i,
        {
            if self.slots[i].io_id == io_id && self.slots[i].container.is_some() {
                proof {
                    orig.lemma_slot_lookup(i as int);
                }
                let slot = &mut self.slots[i];
                let taken = slot.container.take();
                let container = match taken {
                    Some(c) => c,
                    None => {
                        proof {
                            assert(false);
                        }
                        return Err(FlowError::new(ErrorKind::InternalError, String::new()));
                    }
                };
                proof {
                    assert(self.slots@.len() == orig.slots@.len());
                    assert(self.slots@[i as int].io_id == io_id);
                    assert(self.slots@[i as int].container is None);
                    assert forall|j: int| 0 <= j < self.slots@.len() && j != i as int implies
                        #[trigger] self.slots@[j] == orig.slots@[j] by {
                    }
                    assert forall|a: int, b: int| 0 <= a < b < self.slots@.len() implies
                        (#[trigger] self.slots@[a].io_id) != (#[trigger] self.slots@[b].io_id) by {
                        assert(self.slots@[a].io_id == orig.slots@[a].io_id);
                        assert(self.slots@[b].io_id == orig.slots@[b].io_id);
                    }
                    assert(self.wf());
                    self.lemma_slot_lookup(i as int);
                    assert forall|id: i32|
                        #![trigger self.contains_io_id(id)]
                        #![trigger self.codec_of(id)]
                        #![trigger self.is_borrowed(id)]
                        id != io_id implies
                            self.contains_io_id(id) == orig.contains_io_id(id)
                                && self.codec_of(id) == orig.codec_of(id)
                                && (self.is_borrowed(id) == orig.is_borrowed(id)) by {
                        orig.lemma_update_other_ids(self, i as int, id);
                    }
                    assert(self.io_ids() =~= orig.io_ids());
                }
                return Ok(container);
            }
            if self.slots[i].container.is_none() {
                saw_borrowed = true;
            }
            i = i + 1;
        }
        proof {
            if orig.contains_io_id(io_id) && !orig.is_borrowed(io_id) {
                let j = choose|j: int| 0 <= j < orig.slots@.len()
                    && (#[trigger] orig.slots@[j].io_id) == io_id;
                assert(false);
            }
            assert(saw_borrowed == orig.any_borrowed());
        }
        if saw_borrowed {
            Err(FlowError::new(ErrorKind::FailedBorrow,
                "the codec is exclusively borrowed by another scope".to_string()))
        } else {
            Err(FlowError::new(ErrorKind::IoIdNotFound,
                "no codec carries the io_id".to_string()))
        }
    }

    /// Shared access to the codec under `io_id`, without checking it out.
    /// The failure cases mirror `checkout`.
    pub fn peek(&self, io_id: i32) -> (r: Result<&CodecInstanceContainer, FlowError>)
        requires
            self.wf(),
        ensures
            r is Ok <==> self.contains_io_id(io_id) && !self.is_borrowed(io_id),
            r is Ok ==> Some(*r->Ok_0) == self.codec_of(io_id)
                && r->Ok_0.io_id == io_id
                && r->Ok_0.wf(),
            r is Err ==> (r->Err_0.kind == ErrorKind::FailedBorrow <==> self.any_borrowed()),
            r is Err ==> (r->Err_0.kind == ErrorKind::FailedBorrow
                || r->Err_0.kind == ErrorKind::IoIdNotFound),
    {
        let mut saw_borrowed = false;
        let mut i: usize = 0;
        while i < self.slots.len()
            invariant
                self.wf(),
                i <= self.slots@.len(),
                forall|k: int| 0 <= k < i ==>
                    !((#[trigger] self.slots@[k].io_id) == io_id
                        && self.slots@[k].container is Some),
                saw_borrowed == exists|k: int| 0 <= k < i
                    && (#[trigger] self.slots@[k].container) is None,
            decreases self.slots@.len() - i,
        {
            if self.slots[i].io_id == io_id {
                match &self.slots[i].container {
                    Some(c) => {
                        proof {
                            self.lemma_slot_lookup(i as int);
                        }
                        return Ok(c);
                    }
                    None => {}
                }
            }
            if self.slots[i].container.is_none() {
                saw_borrowed = true;
            }
            i = i + 1;
        }
        proof {
            if self.contains_io_id(io_id) && !self.is_borrowed(io_id) {
                let j = choose|j: int| 0 <= j < self.slots@.len()
                    && (#[trigger] self.slots@[j].io_id) == io_id;
                assert(false);
            }
        }
        if saw_borrowed {
            Err(FlowError::new(ErrorKind::FailedBorrow,
                "the codec is exclusively borrowed by another scope".to_string()))
        } else {
            Err(FlowError::new(ErrorKind::IoIdNotFound,
                "no codec carries the io_id".to_string()))
        }
    }

    /// Returns a checked-out codec to its slot. `InvalidArgument` reports a
    /// container whose io_id does not name a checked-out slot.
    pub fn checkin(&mut self, container: CodecInstanceContainer) -> (r: Result<(), FlowError>)
        requires
            old(self).wf(),
            container.wf(),
        ensures
            final(self).wf(),
            r is Ok <==> old(self).is_borrowed(container.io_id),
            r is Ok ==> {
                &&& final(self).contains_io_id(container.io_id)
                &&& !final(self).is_borrowed(container.io_id)
                &&& final(self).codec_of(container.io_id) == Some(container)
                &&& final(self).io_ids() == old(self).io_ids()
                &&& forall|id: i32|
                    #![trigger final(self).contains_io_id(id)]
                    #![trigger final(self).codec_of(id)]
                    #![trigger final(self).is_borrowed(id)]
                    id != container.io_id ==>
                        final(self).contains_io_id(id) == old(self).contains_io_id(id)
                            && final(self).codec_of(id) == old(self).codec_of(id)
                            && (final(self).is_borrowed(id) == old(self).is_borrowed(id))
            },
            r is Err ==> *final(self) == *old(self)
                && r->Err_0.kind == ErrorKind::InvalidArgument,
    {
        let io_id = container.io_id;
        let ghost orig = *old(self);
        let mut i: usize = 0;
        while i < self.slots.len()
            invariant
                *self == orig,
                orig == *old(self),
                orig.wf(),
                container.wf(),
                io_id == container.io_id,
                i <= self.slots@.len(),
                forall|k: int| 0 <= k < i ==>
                    !((#[trigger] self.slots@[k].io_id) == io_id
                        && self.slots@[k].container is None),
            decreases self.slots@.len() - i,
        {
            if self.slots[i].io_id == io_id && self.slots[i].container.is_none() {
                proof {
                    orig.lemma_slot_lookup(i as int);
                }
                let slot = &mut self.slots[i];
                slot.container = Some(container);
                proof {
                    assert(self.slots@.len() == orig.slots@.len());
                    assert(self.slots@[i as int].io_id == io_id);
                    assert(self.slots@[i as int].container == Some(container));
                    assert forall|a: int, b: int| 0 <= a < b < self.slots@.len() implies
                        (#[trigger] self.slots@[a].io_id) != (#[trigger] self.slots@[b].io_id) by {
                        assert(self.slots@[a].io_id == orig.slots@[a].io_id);
                        assert(self.slots@[b].io_id == orig.slots@[b].io_id);
                    }
                    assert forall|j: int| 0 <= j < self.slots@.len() implies
                        ((#[trigger] self.slots@[j].container) is Some ==>
                            self.slots@[j].container->0.wf()
                                && self.slots@[j].container->0.io_id == self.slots@[j].io_id) by {
                        if j != i as int {
                            assert(self.slots@[j] == orig.slots@[j]);
                        }
                    }
                    assert(self.wf());
                    self.lemma_slot_lookup(i as int);
                    assert forall|id: i32|
                        #![trigger self.contains_io_id(id)]
                        #![trigger self.codec_of(id)]
                        #![trigger self.is_borrowed(id)]
                        id != io_id implies
                            self.contains_io_id(id) == orig.contains_io_id(id)
                                && self.codec_of(id) == orig.codec_of(id)
                                && (self.is_borrowed(id) == orig.is_borrowed(id)) by {
                        orig.lemma_update_other_ids(self, i as int, id);
                    }
                    assert(self.io_ids() =~= orig.io_ids());
                }
                return Ok(());
            }
            i = i + 1;
        }
        proof {
            if orig.is_borrowed(io_id) {
                let j = choose|j: int| 0 <= j < orig.slots@.len()
                    && (#[trigger] orig.slots@[j].io_id) == io_id
                    && orig.slots@[j].container is None;
                assert(false);
            }
        }
        Err(FlowError::new(ErrorKind::InvalidArgument,
            "the io_id does not name a checked-out codec".to_string()))
    }

    /// Releases every codec, borrowed or not.
    pub fn mut_clear(&mut self)
        ensures
            final(self).wf(),
            final(self).slot_count() == 0,
    {
        self.slots.clear();
    }

    /// Releases every codec; fails with `FailedBorrow`, changing nothing, if
    /// any is checked out.
    pub fn clear(&mut self) -> (r: Result<(), FlowError>)
        requires
            old(self).wf(),
        ensures
            final(self).wf(),
            r is Ok <==> !old(self).any_borrowed(),
            r is Ok ==> final(self).slot_count() == 0,
            r is Err ==> *final(self) == *old(self)
                && r->Err_0.kind == ErrorKind::FailedBorrow,
    {
        let ghost orig = *old(self);
        let mut i: usize = 0;
        while i < self.slots.len()
            invariant
                *self == orig,
                orig == *old(self),
                orig.wf(),
                i <= self.slots@.len(),
                forall|k: int| 0 <= k < i ==> (#[trigger] self.slots@[k].container) is Some,
            decreases self.slots@.len() - i,
        {
            if self.slots[i].container.is_none() {
                return Err(FlowError::new(ErrorKind::FailedBorrow,
                    "a codec is exclusively borrowed by another scope".to_string()));
            }
            i = i + 1;
        }
        self.slots.clear();
        Ok(())
    }
}

/// Pushing a slot with a fresh io_id leaves every other io_id's lookups
/// unchanged.
proof fn lemma_codec_push_other_ids(orig: &CodecsContainer, upd: &CodecsContainer, id: i32)
    requires
        orig.wf(),
        upd.slots@.len() == orig.slots@.len() + 1,
        forall|j: int| 0 <= j < orig.slots@.len() ==>
            #[trigger] upd.slots@[j] == orig.slots@[j],
        id != upd.slots@[orig.slots@.len() as int].io_id,
    ensures
        upd.contains_io_id(id) == orig.contains_io_id(id),
        upd.is_borrowed(id) == orig.is_borrowed(id),
        upd.codec_of(id) == orig.codec_of(id),
{
    let n = orig.slots@.len() as int;
    if orig.contains_io_id(id) {
        let j = choose|j: int| 0 <= j < orig.slots@.len()
            && (#[trigger] orig.slots@[j].io_id) == id;
        orig.lemma_slot_lookup(j);
        assert(upd.slots@[j].io_id == id);
        if orig.is_borrowed(id) {
            let jb = choose|jb: int| 0 <= jb < orig.slots@.len()
                && (#[trigger] orig.slots@[jb].io_id) == id && orig.slots@[jb].container is None;
            assert(jb == j);
            assert(upd.slots@[j].container is None);
        }
        if upd.is_borrowed(id) {
            let jb = choose|jb: int| 0 <= jb < upd.slots@.len()
                && (#[trigger] upd.slots@[jb].io_id) == id && upd.slots@[jb].container is None;
            assert(jb != n);
            assert(orig.slots@[jb].io_id == id);
            assert(jb == j);
            assert(orig.slots@[j].container is None);
        }
        if exists|js: int| 0 <= js < orig.slots@.len()
            && (#[trigger] orig.slots@[js].io_id) == id && orig.slots@[js].container is Some {
            let js = choose|js: int| 0 <= js < orig.slots@.len()
                && (#[trigger] orig.slots@[js].io_id) == id && orig.slots@[js].container is Some;
            assert(js == j);
            assert(orig.codec_of(id) == orig.slots@[j].container);
            assert(upd.slots@[j].io_id == id && upd.slots@[j].container is Some);
            let ju = choose|ju: int| 0 <= ju < upd.slots@.len()
                && (#[trigger] upd.slots@[ju].io_id) == id && upd.slots@[ju].container is Some;
            assert(ju != n);
            assert(orig.slots@[ju].io_id == id);
            assert(ju == j);
            assert(upd.codec_of(id) == upd.slots@[j].container);
        } else {
            assert(orig.codec_of(id) is None);
            if exists|ju: int| 0 <= ju < upd.slots@.len()
                && (#[trigger] upd.slots@[ju].io_id) == id && upd.slots@[ju].container is Some {
                let ju = choose|ju: int| 0 <= ju < upd.slots@.len()
                    && (#[trigger] upd.slots@[ju].io_id) == id && upd.slots@[ju].container is Some;
                assert(ju != n);
                assert(orig.slots@[ju].io_id == id && orig.slots@[ju].container is Some);
                assert(false);
            }
            assert(upd.codec_of(id) is None);
        }
    } else {
        if upd.contains_io_id(id) {
            let j = choose|j: int| 0 <= j < upd.slots@.len()
                && (#[trigger] upd.slots@[j].io_id) == id;
            assert(j != n);
            assert(orig.slots@[j].io_id == id);
            assert(false);
        }
        assert(!orig.is_borrowed(id) && !upd.is_borrowed(id));
        assert(orig.codec_of(id) is None && upd.codec_of(id) is None);
    }
}

} // verus!
