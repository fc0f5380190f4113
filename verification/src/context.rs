use vstd::prelude::*;
use crate::allocation_container::{AllocationContainer, spec_is_power_of_two};
use crate::bitmaps::{BitmapKey, BitmapsContainer};
use crate::codecs::{CodecInstanceContainer, CodecsContainer, EnabledCodecs};
use crate::errors::{ErrorKind, FlowError, OutwardErrorBuffer};
use crate::image_png_decoder::png_dimensions_of;
use crate::io::{IoDirection, IoProxy};
use crate::types::{
    Build001GraphRecording, DecodeResult, DecoderCommand, ExecutionSecurity, FrameSizeLimit,
    ImageInfo,
};

verus! {

/// The effective policy after an override: each cap that the override sets
/// replaces the prior one; caps it leaves unset are kept.
pub open spec fn spec_merge_security(
    prior: ExecutionSecurity,
    overrides: ExecutionSecurity,
) -> ExecutionSecurity {
    ExecutionSecurity {
        max_decode_size: if overrides.max_decode_size is Some {
            overrides.max_decode_size
        } else {
            prior.max_decode_size
        },
        max_frame_size: if overrides.max_frame_size is Some {
            overrides.max_frame_size
        } else {
            prior.max_frame_size
        },
        max_encode_size: if overrides.max_encode_size is Some {
            overrides.max_encode_size
        } else {
            prior.max_encode_size
        },
    }
}

/// Overriding a policy twice with the same overrides yields the same
/// effective policy as overriding it once.
pub proof fn lemma_configure_security_idempotent(
    prior: ExecutionSecurity,
    overrides: ExecutionSecurity,
)
    ensures
        spec_merge_security(spec_merge_security(prior, overrides), overrides)
            == spec_merge_security(prior, overrides),
{
}

/// Whether the value of the continuous-integration environment variable
/// equals "true" up to ASCII case, which forces graph recording off.
pub open spec fn spec_ci_forces_off(ci: Option<Seq<char>>) -> bool {
    match ci {
        Option::None => false,
        Option::Some(s) => s.len() == 4
            && (s[0] == 'T' || s[0] == 't')
            && (s[1] == 'R' || s[1] == 'r')
            && (s[2] == 'U' || s[2] == 'u')
            && (s[3] == 'E' || s[3] == 'e'),
    }
}

/// The one decode summary a registered input contributes to a job result, if
/// its metadata query would succeed: the declared dimensions of its stream.
pub open spec fn spec_decode_entry(ctx: &Context, io_id: i32) -> Option<(u32, u32)> {
    if ctx.contains_codec(io_id) && !ctx.is_codec_borrowed(io_id)
        && ctx.decoder_bytes_of(io_id) is Some
        && png_dimensions_of(ctx.decoder_bytes_of(io_id)->0) is Some {
        let (w, h) = png_dimensions_of(ctx.decoder_bytes_of(io_id)->0)->0;
        if w <= i32::MAX && h <= i32::MAX {
            Some((w, h))
        } else {
            Option::None
        }
    } else {
        Option::None
    }
}

/// Relies on itertools::Itertools::sorted_by_key: sorts the entries by their
/// `io_id`, keeping exactly the given entries; entries with pairwise distinct
/// io_ids therefore come out strictly ascending.
#[verifier::external_body]
fn sorted_by_io_id(entries: Vec<DecodeResult>) -> (r: Vec<DecodeResult>)
    ensures
        r@.len() == entries@.len(),
        r@.to_multiset() == entries@.to_multiset(),
        forall|x: DecodeResult| #[trigger] r@.contains(x) == entries@.contains(x),
        forall|i: int, j: int| 0 <= i <= j < r@.len() ==>
            (#[trigger] r@[i]).io_id <= (#[trigger] r@[j]).io_id,
        (forall|i: int, j: int| 0 <= i < j < entries@.len() ==>
            (#[trigger] entries@[i]).io_id != (#[trigger] entries@[j]).io_id) ==>
            forall|i: int, j: int| 0 <= i < j < r@.len() ==>
                (#[trigger] r@[i]).io_id < (#[trigger] r@[j]).io_id,
{
    itertools::Itertools::sorted_by_key(entries.into_iter(), |e: &DecodeResult| e.io_id).collect()
}

/// What the engine does next at a frame boundary: a true cancellation poll
/// aborts the job; otherwise the next registered input is decoded, until
/// none are left.
#[derive(Clone, Copy, Debug, PartialEq, Eq, Structural)]
pub enum JobStep {
    DecodeFrame { io_id: i32 },
    Finished,
    Cancelled,
}

/// The scheduling decision of the execution loop: the cancellation poll is
/// consulted at every frame boundary and wins over remaining work.
pub fn next_job_step(io_ids: &Vec<i32>, next_index: usize, poll_result: bool) -> (r: JobStep)
    ensures
        poll_result ==> r is Cancelled,
        !poll_result && next_index < io_ids@.len() ==>
            r == (JobStep::DecodeFrame { io_id: io_ids@[next_index as int] }),
        !poll_result && next_index >= io_ids@.len() ==> r is Finished,
{
    if poll_result {
        JobStep::Cancelled
    } else if next_index < io_ids.len() {
        JobStep::DecodeFrame { io_id: io_ids[next_index] }
    } else {
        JobStep::Finished
    }
}

/// Everything of a context outside its containers and policy caps is
/// unchanged: the recording mode, the outward error buffer, the
/// enabled-codecs policy, and the plain counters.
pub open spec fn spec_same_config(pre: &Context, post: &Context) -> bool {
    &&& post.spec_graph_recording() == pre.spec_graph_recording()
    &&& post.spec_outward_error() == pre.spec_outward_error()
    &&& post.spec_enabled_codecs() == pre.spec_enabled_codecs()
    &&& post.spec_counters() == pre.spec_counters()
}

/// The job-scoped owner of every mutable resource: codecs and their I/O,
/// bitmaps, raw allocations, the security policy, and the outward error
/// buffer. All operations of a job go through it.
pub struct Context {
    outward_error: OutwardErrorBuffer,
    pub debug_job_id: i32,
    pub next_stable_node_id: i32,
    pub next_graph_version: i32,
    pub max_calc_flatten_execute_passes: i32,
    graph_recording: Build001GraphRecording,
    codecs: CodecsContainer,
    io_id_list: Vec<i32>,
    pub enabled_codecs: EnabledCodecs,
    security: ExecutionSecurity,
    bitmaps: BitmapsContainer,
    allocations: AllocationContainer,
}

impl Context {
    pub closed spec fn spec_security(&self) -> ExecutionSecurity {
        self.security
    }

    pub closed spec fn spec_enabled_codecs(&self) -> EnabledCodecs {
        self.enabled_codecs
    }

    /// The job's plain counters: debug job id, next stable node id, next
    /// graph version, and the flatten/execute pass cap.
    pub closed spec fn spec_counters(&self) -> (i32, i32, i32, i32) {
        (
            self.debug_job_id,
            self.next_stable_node_id,
            self.next_graph_version,
            self.max_calc_flatten_execute_passes,
        )
    }

    pub closed spec fn spec_graph_recording(&self) -> Build001GraphRecording {
        self.graph_recording
    }

    pub closed spec fn io_ids(&self) -> Seq<i32> {
        self.io_id_list@
    }

    pub closed spec fn contains_codec(&self, io_id: i32) -> bool {
        self.codecs.contains_io_id(io_id)
    }

    pub closed spec fn is_codec_borrowed(&self, io_id: i32) -> bool {
        self.codecs.is_borrowed(io_id)
    }

    pub closed spec fn any_codec_borrowed(&self) -> bool {
        self.codecs.any_borrowed()
    }

    pub closed spec fn codec_of(&self, io_id: i32) -> Option<CodecInstanceContainer> {
        self.codecs.codec_of(io_id)
    }

    /// The input bytes behind a decoder registered under the io_id.
    pub open spec fn decoder_bytes_of(&self, io_id: i32) -> Option<Seq<u8>> {
        match self.codec_of(io_id) {
            Option::Some(c) => c.decoder_bytes(),
            Option::None => Option::None,
        }
    }

    /// The bytes written so far to an output buffer registered under the io_id.
    pub open spec fn output_bytes_of(&self, io_id: i32) -> Option<Seq<u8>> {
        match self.codec_of(io_id) {
            Option::Some(c) => c.output_bytes(),
            Option::None => Option::None,
        }
    }

    pub closed spec fn spec_bitmaps(&self) -> BitmapsContainer {
        self.bitmaps
    }

    pub closed spec fn spec_allocations(&self) -> AllocationContainer {
        self.allocations
    }

    pub closed spec fn spec_outward_error(&self) -> Option<FlowError> {
        self.outward_error@
    }

    /// Every io_id in the io_id list has exactly one codec instance in the
    /// codec container, and each sub-container is well formed.
    pub closed spec fn wf(&self) -> bool {
        &&& self.codecs.wf()
        &&& self.bitmaps.wf()
        &&& self.allocations.wf()
        &&& self.io_id_list@ == self.codecs.io_ids()
    }

    /// The registered io_ids are pairwise distinct.
    pub proof fn lemma_io_ids_unique(&self)
        requires
            self.wf(),
        ensures
            forall|i: int, j: int| 0 <= i < j < self.io_ids().len() ==>
                (#[trigger] self.io_ids()[i]) != (#[trigger] self.io_ids()[j]),
    {
        self.codecs.lemma_io_ids_unique();
    }

    /// An io_id stands in the io_id list exactly when a codec carries it.
    pub proof fn lemma_io_ids_match_codecs(&self)
        requires
            self.wf(),
        ensures
            forall|io_id: i32| #[trigger] self.io_ids().contains(io_id)
                == self.contains_codec(io_id),
    {
        self.codecs.lemma_io_ids_match();
    }

    /// The state of a freshly created context: no I/O registered, no bitmaps,
    /// no allocations, an empty outward error buffer, recording off, every
    /// codec enabled, and the default frame cap of 10000×10000 and 100
    /// million pixels.
    pub open spec fn spec_fresh(c: &Context) -> bool {
        &&& c.wf()
        &&& c.io_ids().len() == 0
        &&& c.spec_bitmaps().slot_count() == 0
        &&& c.spec_allocations()@.len() == 0
        &&& c.spec_outward_error() is None
        &&& !c.any_codec_borrowed()
        &&& c.spec_enabled_codecs().png == true
        &&& c.spec_graph_recording() == Build001GraphRecording::spec_off()
        &&& c.spec_security() == (ExecutionSecurity {
            max_decode_size: Option::None,
            max_frame_size: Some(FrameSizeLimit {
                w: 10000,
                h: 10000,
                max_pixels: 100_000_000,
            }),
            max_encode_size: Option::None,
        })
    }

    /// A fresh context with the defaults that `spec_fresh` describes.
    pub fn create() -> (r: Result<Box<Context>, FlowError>)
        ensures
            r is Ok,
            r is Ok ==> Context::spec_fresh(&*r->Ok_0),
    {
        let ctx = Context {
            outward_error: OutwardErrorBuffer::new(),
            debug_job_id: 0,
            next_stable_node_id: 0,
            next_graph_version: 0,
            max_calc_flatten_execute_passes: 40,
            graph_recording: Build001GraphRecording::off(),
            codecs: CodecsContainer::with_capacity(4),
            io_id_list: Vec::with_capacity(2),
            enabled_codecs: EnabledCodecs { png: true },
            security: ExecutionSecurity {
                max_decode_size: None,
                max_frame_size: Some(FrameSizeLimit {
                    w: 10000,
                    h: 10000,
                    max_pixels: 100_000_000,
                }),
                max_encode_size: None,
            },
            bitmaps: BitmapsContainer::with_capacity(16),
            allocations: AllocationContainer::new(),
        };
        proof {
            assert(ctx.io_id_list@ =~= ctx.codecs.io_ids());
        }
        Ok(Box::new(ctx))
    }

    /// `create`, for callers that tolerate a panic: verified code does not
    /// panic, so this is `create` itself, with the same fresh defaults.
    pub fn create_can_panic() -> (r: Result<Box<Context>, FlowError>)
        ensures
            r is Ok,
            r is Ok ==> Context::spec_fresh(&*r->Ok_0),
    {
        Context::create()
    }

    /// `create`, shielded against panics: verified code does not panic, so
    /// this is `create` itself, with the same fresh defaults.
    pub fn create_cant_panic() -> (r: Result<Box<Context>, FlowError>)
        ensures
            r is Ok,
            r is Ok ==> Context::spec_fresh(&*r->Ok_0),
    {
        Context::create()
    }

    /// Begins teardown: releases every codec, and with them their I/O.
    pub fn abi_begin_terminate(&mut self) -> (r: bool)
        requires
            old(self).wf(),
        ensures
            r == true,
            final(self).wf(),
            spec_same_config(old(self), final(self)),
            final(self).io_ids().len() == 0,
            final(self).spec_allocations() == old(self).spec_allocations(),
    {
        self.codecs.mut_clear();
        self.io_id_list.clear();
        proof {
            assert(self.io_id_list@ =~= self.codecs.io_ids());
        }
        true
    }

    /// Tears the context down: codecs first (releasing their I/O), then the
    /// rest drops with the value.
    pub fn destroy(self) -> (r: Result<(), FlowError>)
        requires
            self.wf(),
        ensures
            r is Ok,
    {
        let mut this = self;
        this.abi_begin_terminate();
        Ok(())
    }

    pub fn outward_error(&self) -> (r: &OutwardErrorBuffer)
        ensures
            r@ == self.spec_outward_error(),
    {
        &self.outward_error
    }

    pub fn outward_error_mut(&mut self) -> (r: &mut OutwardErrorBuffer)
        ensures
            r@ == old(self).spec_outward_error(),
            final(self).spec_outward_error() == final(r)@,
            final(self).wf() == old(self).wf(),
            final(self).spec_graph_recording() == old(self).spec_graph_recording(),
            final(self).spec_enabled_codecs() == old(self).spec_enabled_codecs(),
            final(self).spec_counters() == old(self).spec_counters(),
            final(self).io_ids() == old(self).io_ids(),
            final(self).spec_bitmaps() == old(self).spec_bitmaps(),
            final(self).spec_allocations() == old(self).spec_allocations(),
            final(self).spec_security() == old(self).spec_security(),
            forall|id: i32| #[trigger] final(self).codec_of(id) == old(self).codec_of(id),
            forall|id: i32| #[trigger] final(self).contains_codec(id)
                == old(self).contains_codec(id),
            forall|id: i32| #[trigger] final(self).is_codec_borrowed(id)
                == old(self).is_codec_borrowed(id),
    {
        &mut self.outward_error
    }

    /// Shared access to the bitmaps of the job.
    pub fn borrow_bitmaps(&self) -> (r: &BitmapsContainer)
        ensures
            *r == self.spec_bitmaps(),
    {
        &self.bitmaps
    }

    /// Exclusive access to the bitmaps of the job. The per-bitmap borrow
    /// discipline lives in the container itself.
    pub fn borrow_bitmaps_mut(&mut self) -> (r: &mut BitmapsContainer)
        ensures
            *r == old(self).spec_bitmaps(),
            final(self).spec_bitmaps() == *final(r),
            old(self).wf() && final(r).wf() ==> final(self).wf(),
            spec_same_config(old(self), final(self)),
            final(self).io_ids() == old(self).io_ids(),
            final(self).spec_allocations() == old(self).spec_allocations(),
            final(self).spec_security() == old(self).spec_security(),
            final(self).spec_outward_error() == old(self).spec_outward_error(),
            forall|id: i32| #[trigger] final(self).codec_of(id) == old(self).codec_of(id),
            forall|id: i32| #[trigger] final(self).contains_codec(id)
                == old(self).contains_codec(id),
            forall|id: i32| #[trigger] final(self).is_codec_borrowed(id)
                == old(self).is_codec_borrowed(id),
    {
        &mut self.bitmaps
    }

    /// Records a zero-initialized aligned allocation and returns its handle;
    /// the caller's origin is attached to any error.
    pub fn mem_calloc(&mut self, bytes: usize, alignment: usize, filename: &str, line: i32) -> (r:
        Result<u64, FlowError>)
        requires
            old(self).wf(),
        ensures
            final(self).wf(),
            spec_same_config(old(self), final(self)),
            r is Ok <==> bytes != 0 && spec_is_power_of_two(alignment as nat)
                && old(self).spec_allocations().next_id_spec() < u64::MAX,
            r is Ok ==> final(self).spec_allocations()@ == old(self).spec_allocations()@.push(
                crate::allocation_container::Allocation {
                    id: r->Ok_0,
                    size: bytes,
                    alignment,
                },
            ),
            r is Err ==> *final(self) == *old(self)
                && r->Err_0.kind == ErrorKind::AllocationFailed
                && r->Err_0.locations@.len() == 1
                && r->Err_0.locations@[0].file@ == filename@
                && r->Err_0.locations@[0].line == line,
            final(self).io_ids() == old(self).io_ids(),
            final(self).spec_bitmaps() == old(self).spec_bitmaps(),
            forall|id: i32| #[trigger] final(self).codec_of(id) == old(self).codec_of(id),
    {
        match self.allocations.allocate(bytes, alignment) {
            Ok(id) => Ok(id),
            Err(e) => {
                let err = FlowError::new(ErrorKind::AllocationFailed,
                    "the allocation was refused".to_string());
                Err(err.at(String::from_str(filename), line))
            }
        }
    }

    /// Releases an allocation by handle; false reports an unknown or already
    /// released handle.
    pub fn mem_free(&mut self, ptr: u64) -> (freed: bool)
        requires
            old(self).wf(),
        ensures
            final(self).wf(),
            spec_same_config(old(self), final(self)),
            freed == old(self).spec_allocations().contains_id(ptr),
            !final(self).spec_allocations().contains_id(ptr),
            freed ==> final(self).spec_allocations()@.len() + 1
                == old(self).spec_allocations()@.len(),
            !freed ==> *final(self) == *old(self),
            final(self).io_ids() == old(self).io_ids(),
            final(self).spec_bitmaps() == old(self).spec_bitmaps(),
            forall|id: i32| #[trigger] final(self).codec_of(id) == old(self).codec_of(id),
    {
        self.allocations.free(ptr)
    }

    /// How many raw allocations are still live.
    pub fn live_allocation_count(&self) -> (n: usize)
        ensures
            n == self.spec_allocations()@.len(),
    {
        self.allocations.live_count()
    }

    pub fn io_id_present(&self, io_id: i32) -> (r: bool)
        ensures
            r == self.io_ids().contains(io_id),
    {
        let mut i: usize = 0;
        while i < self.io_id_list.len()
            invariant
                i <= self.io_id_list@.len(),
                forall|k: int| 0 <= k < i ==> (#[trigger] self.io_id_list@[k]) != io_id,
            decreases self.io_id_list@.len() - i,
        {
            if self.io_id_list[i] == io_id {
                return true;
            }
            i = i + 1;
        }
        false
    }

    /// Registers one I/O proxy: a duplicate io_id is refused; for the input
    /// direction a decoder is selected by the stream's signature.
    fn add_io(&mut self, io: IoProxy, io_id: i32, direction: IoDirection) -> (r: Result<(),
        FlowError>)
        requires
            old(self).wf(),
            io.wf(),
            io.direction == direction,
            io.io_id == io_id,
        ensures
            final(self).wf(),
            spec_same_config(old(self), final(self)),
            r is Ok <==> !old(self).io_ids().contains(io_id)
                && (direction == IoDirection::Out
                    || (old(self).spec_enabled_codecs().png && io.input_bytes() is Some
                        && crate::image_png_decoder::spec_has_png_signature(
                            io.input_bytes()->0)
                        && crate::image_png_decoder::png_dimensions_of(io.input_bytes()->0)
                            is Some)),
            r is Ok ==> {
                &&& final(self).io_ids() == old(self).io_ids().push(io_id)
                &&& final(self).contains_codec(io_id)
                &&& !final(self).is_codec_borrowed(io_id)
                &&& (direction == IoDirection::In ==>
                    final(self).decoder_bytes_of(io_id) == io.input_bytes())
                &&& (direction == IoDirection::Out ==>
                    final(self).output_bytes_of(io_id) == io.output_bytes())
                &&& forall|id: i32|
                    #![trigger final(self).codec_of(id)]
                    #![trigger final(self).contains_codec(id)]
                    #![trigger final(self).is_codec_borrowed(id)]
                    id != io_id ==>
                        final(self).codec_of(id) == old(self).codec_of(id)
                            && final(self).contains_codec(id) == old(self).contains_codec(id)
                            && (final(self).is_codec_borrowed(id)
                                == old(self).is_codec_borrowed(id))
            },
            r is Err ==> *final(self) == *old(self),
            r is Err ==> (r->Err_0.kind == ErrorKind::DuplicateIoId
                <==> old(self).io_ids().contains(io_id)),
            r is Err ==> (r->Err_0.kind == ErrorKind::CodecNotFound
                <==> !old(self).io_ids().contains(io_id)
                    && !(direction == IoDirection::Out
                        || (old(self).spec_enabled_codecs().png && io.input_bytes() is Some
                            && crate::image_png_decoder::spec_has_png_signature(
                                io.input_bytes()->0)))),
            r is Err ==> (r->Err_0.kind == ErrorKind::DuplicateIoId
                || r->Err_0.kind == ErrorKind::CodecNotFound
                || r->Err_0.kind == ErrorKind::ImageDecodingError),
            final(self).spec_bitmaps() == old(self).spec_bitmaps(),
            final(self).spec_allocations() == old(self).spec_allocations(),
            final(self).spec_security() == old(self).spec_security(),
            final(self).spec_enabled_codecs() == old(self).spec_enabled_codecs(),
        decreases 0nat,
    {
        if self.io_id_present(io_id) {
            return Err(FlowError::new(ErrorKind::DuplicateIoId,
                "the io_id is already registered".to_string()));
        }
        proof {
            self.lemma_io_ids_match_codecs();
        }
        let container = match CodecInstanceContainer::create(io, io_id, direction,
            &self.enabled_codecs) {
            Ok(c) => c,
            Err(e) => return Err(e),
        };
        self.io_id_list.push(io_id);
        self.codecs.add(container);
        proof {
            assert(self.io_id_list@ =~= self.codecs.io_ids());
        }
        Ok(())
    }

    /// Registers an input whose bytes are copied from the caller's slice.
    pub fn add_input_buffer(&mut self, io_id: i32, bytes: &[u8]) -> (r: Result<(), FlowError>)
        requires
            old(self).wf(),
        ensures
            final(self).wf(),
            spec_same_config(old(self), final(self)),
            r is Ok <==> !old(self).io_ids().contains(io_id)
                && old(self).spec_enabled_codecs().png
                && crate::image_png_decoder::spec_has_png_signature(bytes@)
                && crate::image_png_decoder::png_dimensions_of(bytes@) is Some,
            r is Ok ==> final(self).io_ids() == old(self).io_ids().push(io_id)
                && final(self).contains_codec(io_id)
                && !final(self).is_codec_borrowed(io_id)
                && final(self).decoder_bytes_of(io_id) == Some(bytes@),
            r is Ok ==> forall|id: i32|
                #![trigger final(self).codec_of(id)]
                #![trigger final(self).contains_codec(id)]
                #![trigger final(self).is_codec_borrowed(id)]
                id != io_id ==>
                    final(self).codec_of(id) == old(self).codec_of(id)
                        && final(self).contains_codec(id) == old(self).contains_codec(id)
                        && (final(self).is_codec_borrowed(id) == old(self).is_codec_borrowed(id)),
            r is Err ==> *final(self) == *old(self),
            r is Err ==> (r->Err_0.kind == ErrorKind::DuplicateIoId
                <==> old(self).io_ids().contains(io_id)),
            r is Err ==> (r->Err_0.kind == ErrorKind::CodecNotFound
                <==> !old(self).io_ids().contains(io_id)
                    && !(old(self).spec_enabled_codecs().png
                        && crate::image_png_decoder::spec_has_png_signature(bytes@))),
            r is Err ==> (r->Err_0.kind == ErrorKind::ImageDecodingError
                <==> !old(self).io_ids().contains(io_id)
                    && old(self).spec_enabled_codecs().png
                    && crate::image_png_decoder::spec_has_png_signature(bytes@)
                    && crate::image_png_decoder::png_dimensions_of(bytes@) is None),
            r is Err ==> (r->Err_0.kind == ErrorKind::DuplicateIoId
                || r->Err_0.kind == ErrorKind::CodecNotFound
                || r->Err_0.kind == ErrorKind::ImageDecodingError),
            final(self).spec_bitmaps() == old(self).spec_bitmaps(),
            final(self).spec_allocations() == old(self).spec_allocations(),
            final(self).spec_security() == old(self).spec_security(),
    {
        let io = IoProxy::copy_slice(io_id, bytes);
        self.add_io(io, io_id, IoDirection::In)
    }

    /// `add_input_buffer` under its other name.
    pub fn add_input_bytes(&mut self, io_id: i32, bytes: &[u8]) -> (r: Result<(), FlowError>)
        requires
            old(self).wf(),
        ensures
            final(self).wf(),
            spec_same_config(old(self), final(self)),
            r is Ok <==> !old(self).io_ids().contains(io_id)
                && old(self).spec_enabled_codecs().png
                && crate::image_png_decoder::spec_has_png_signature(bytes@)
                && crate::image_png_decoder::png_dimensions_of(bytes@) is Some,
            r is Ok ==> final(self).io_ids() == old(self).io_ids().push(io_id)
                && final(self).contains_codec(io_id)
                && !final(self).is_codec_borrowed(io_id)
                && final(self).decoder_bytes_of(io_id) == Some(bytes@),
            r is Err ==> *final(self) == *old(self),
            r is Err ==> (r->Err_0.kind == ErrorKind::DuplicateIoId
                <==> old(self).io_ids().contains(io_id)),
            r is Err ==> (r->Err_0.kind == ErrorKind::CodecNotFound
                <==> !old(self).io_ids().contains(io_id)
                    && !(old(self).spec_enabled_codecs().png
                        && crate::image_png_decoder::spec_has_png_signature(bytes@))),
            r is Err ==> (r->Err_0.kind == ErrorKind::ImageDecodingError
                <==> !old(self).io_ids().contains(io_id)
                    && old(self).spec_enabled_codecs().png
                    && crate::image_png_decoder::spec_has_png_signature(bytes@)
                    && crate::image_png_decoder::png_dimensions_of(bytes@) is None),
            r is Err ==> (r->Err_0.kind == ErrorKind::DuplicateIoId
                || r->Err_0.kind == ErrorKind::CodecNotFound
                || r->Err_0.kind == ErrorKind::ImageDecodingError),
    {
        self.add_input_buffer(io_id, bytes)
    }

    /// Registers an input over a private copy of the caller's bytes.
    pub fn add_copied_input_buffer(&mut self, io_id: i32, bytes: &[u8]) -> (r: Result<(),
        FlowError>)
        requires
            old(self).wf(),
        ensures
            final(self).wf(),
            spec_same_config(old(self), final(self)),
            r is Ok <==> !old(self).io_ids().contains(io_id)
                && old(self).spec_enabled_codecs().png
                && crate::image_png_decoder::spec_has_png_signature(bytes@)
                && crate::image_png_decoder::png_dimensions_of(bytes@) is Some,
            r is Ok ==> final(self).io_ids() == old(self).io_ids().push(io_id)
                && final(self).contains_codec(io_id)
                && !final(self).is_codec_borrowed(io_id)
                && final(self).decoder_bytes_of(io_id) == Some(bytes@),
            r is Err ==> *final(self) == *old(self),
            r is Err ==> (r->Err_0.kind == ErrorKind::DuplicateIoId
                <==> old(self).io_ids().contains(io_id)),
            r is Err ==> (r->Err_0.kind == ErrorKind::CodecNotFound
                <==> !old(self).io_ids().contains(io_id)
                    && !(old(self).spec_enabled_codecs().png
                        && crate::image_png_decoder::spec_has_png_signature(bytes@))),
            r is Err ==> (r->Err_0.kind == ErrorKind::ImageDecodingError
                <==> !old(self).io_ids().contains(io_id)
                    && old(self).spec_enabled_codecs().png
                    && crate::image_png_decoder::spec_has_png_signature(bytes@)
                    && crate::image_png_decoder::png_dimensions_of(bytes@) is None),
            r is Err ==> (r->Err_0.kind == ErrorKind::DuplicateIoId
                || r->Err_0.kind == ErrorKind::CodecNotFound
                || r->Err_0.kind == ErrorKind::ImageDecodingError),
    {
        self.add_input_buffer(io_id, bytes)
    }

    /// Registers an input that takes ownership of the given bytes.
    pub fn add_input_vector(&mut self, io_id: i32, bytes: Vec<u8>) -> (r: Result<(), FlowError>)
        requires
            old(self).wf(),
        ensures
            final(self).wf(),
            spec_same_config(old(self), final(self)),
            r is Ok <==> !old(self).io_ids().contains(io_id)
                && old(self).spec_enabled_codecs().png
                && crate::image_png_decoder::spec_has_png_signature(bytes@)
                && crate::image_png_decoder::png_dimensions_of(bytes@) is Some,
            r is Ok ==> final(self).io_ids() == old(self).io_ids().push(io_id)
                && final(self).contains_codec(io_id)
                && !final(self).is_codec_borrowed(io_id)
                && final(self).decoder_bytes_of(io_id) == Some(bytes@),
            r is Err ==> *final(self) == *old(self),
            r is Err ==> (r->Err_0.kind == ErrorKind::DuplicateIoId
                <==> old(self).io_ids().contains(io_id)),
            r is Err ==> (r->Err_0.kind == ErrorKind::CodecNotFound
                <==> !old(self).io_ids().contains(io_id)
                    && !(old(self).spec_enabled_codecs().png
                        && crate::image_png_decoder::spec_has_png_signature(bytes@))),
            r is Err ==> (r->Err_0.kind == ErrorKind::ImageDecodingError
                <==> !old(self).io_ids().contains(io_id)
                    && old(self).spec_enabled_codecs().png
                    && crate::image_png_decoder::spec_has_png_signature(bytes@)
                    && crate::image_png_decoder::png_dimensions_of(bytes@) is None),
            r is Err ==> (r->Err_0.kind == ErrorKind::DuplicateIoId
                || r->Err_0.kind == ErrorKind::CodecNotFound
                || r->Err_0.kind == ErrorKind::ImageDecodingError),
    {
        let io = IoProxy::read_vec(io_id, bytes);
        self.add_io(io, io_id, IoDirection::In)
    }

    /// Registers an output buffer that accumulates everything an encoder
    /// writes under this io_id.
    pub fn add_output_buffer(&mut self, io_id: i32) -> (r: Result<(), FlowError>)
        requires
            old(self).wf(),
        ensures
            final(self).wf(),
            spec_same_config(old(self), final(self)),
            r is Ok <==> !old(self).io_ids().contains(io_id),
            r is Ok ==> final(self).io_ids() == old(self).io_ids().push(io_id)
                && final(self).contains_codec(io_id)
                && !final(self).is_codec_borrowed(io_id)
                && final(self).output_bytes_of(io_id) == Some(Seq::<u8>::empty()),
            r is Ok ==> forall|id: i32|
                #![trigger final(self).codec_of(id)]
                #![trigger final(self).contains_codec(id)]
                #![trigger final(self).is_codec_borrowed(id)]
                id != io_id ==>
                    final(self).codec_of(id) == old(self).codec_of(id)
                        && final(self).contains_codec(id) == old(self).contains_codec(id)
                        && (final(self).is_codec_borrowed(id) == old(self).is_codec_borrowed(id)),
            r is Err ==> *final(self) == *old(self)
                && r->Err_0.kind == ErrorKind::DuplicateIoId,
            final(self).spec_bitmaps() == old(self).spec_bitmaps(),
            final(self).spec_allocations() == old(self).spec_allocations(),
            final(self).spec_security() == old(self).spec_security(),
    {
        let io = IoProxy::create_output_buffer(io_id);
        self.add_io(io, io_id, IoDirection::Out)
    }

    /// Checks the codec under `io_id` out exclusively. While it is checked out
    /// elsewhere, reports `FailedBorrow`; an unknown io_id with nothing
    /// checked out reports `IoIdNotFound`.
    pub fn get_codec(&mut self, io_id: i32) -> (r: Result<CodecInstanceContainer, FlowError>)
        requires
            old(self).wf(),
        ensures
            final(self).wf(),
            spec_same_config(old(self), final(self)),
            final(self).io_ids() == old(self).io_ids(),
            r is Ok <==> old(self).contains_codec(io_id) && !old(self).is_codec_borrowed(io_id),
            r is Ok ==> Some(r->Ok_0) == old(self).codec_of(io_id)
                && r->Ok_0.io_id == io_id
                && r->Ok_0.wf()
                && final(self).is_codec_borrowed(io_id),
            r is Ok ==> forall|id: i32|
                #![trigger final(self).codec_of(id)]
                #![trigger final(self).contains_codec(id)]
                #![trigger final(self).is_codec_borrowed(id)]
                id != io_id ==>
                    final(self).codec_of(id) == old(self).codec_of(id)
                        && final(self).contains_codec(id) == old(self).contains_codec(id)
                        && (final(self).is_codec_borrowed(id) == old(self).is_codec_borrowed(id)),
            r is Err ==> *final(self) == *old(self),
            r is Err ==> (r->Err_0.kind == ErrorKind::FailedBorrow
                <==> old(self).any_codec_borrowed()),
            r is Err ==> (r->Err_0.kind == ErrorKind::FailedBorrow
                || r->Err_0.kind == ErrorKind::IoIdNotFound),
            final(self).spec_bitmaps() == old(self).spec_bitmaps(),
            final(self).spec_allocations() == old(self).spec_allocations(),
            final(self).spec_security() == old(self).spec_security(),
    {
        self.codecs.checkout(io_id)
    }

    /// Returns a checked-out codec to the container.
    pub fn return_codec(&mut self, codec: CodecInstanceContainer) -> (r: Result<(), FlowError>)
        requires
            old(self).wf(),
            codec.wf(),
        ensures
            final(self).wf(),
            spec_same_config(old(self), final(self)),
            final(self).io_ids() == old(self).io_ids(),
            r is Ok <==> old(self).is_codec_borrowed(codec.io_id),
            r is Ok ==> final(self).contains_codec(codec.io_id)
                && !final(self).is_codec_borrowed(codec.io_id)
                && final(self).codec_of(codec.io_id) == Some(codec),
            r is Ok ==> forall|id: i32|
                #![trigger final(self).codec_of(id)]
                #![trigger final(self).contains_codec(id)]
                #![trigger final(self).is_codec_borrowed(id)]
                id != codec.io_id ==>
                    final(self).codec_of(id) == old(self).codec_of(id)
                        && final(self).contains_codec(id) == old(self).contains_codec(id)
                        && (final(self).is_codec_borrowed(id) == old(self).is_codec_borrowed(id)),
            r is Err ==> *final(self) == *old(self)
                && r->Err_0.kind == ErrorKind::InvalidArgument,
            final(self).spec_bitmaps() == old(self).spec_bitmaps(),
            final(self).spec_allocations() == old(self).spec_allocations(),
            final(self).spec_security() == old(self).spec_security(),
    {
        self.codecs.checkin(codec)
    }

    /// Overrides only the caps that the incoming policy sets; caps it leaves
    /// unset keep their prior values.
    pub fn configure_security(&mut self, s: ExecutionSecurity)
        requires
            old(self).wf(),
        ensures
            final(self).wf(),
            spec_same_config(old(self), final(self)),
            final(self).spec_security() == spec_merge_security(old(self).spec_security(), s),
            final(self).io_ids() == old(self).io_ids(),
            final(self).spec_bitmaps() == old(self).spec_bitmaps(),
            final(self).spec_allocations() == old(self).spec_allocations(),
            forall|id: i32| #[trigger] final(self).codec_of(id) == old(self).codec_of(id),
    {
        if let Some(decode) = s.max_decode_size {
            self.security.max_decode_size = Some(decode);
        }
        if let Some(frame) = s.max_frame_size {
            self.security.max_frame_size = Some(frame);
        }
        if let Some(encode) = s.max_encode_size {
            self.security.max_encode_size = Some(encode);
        }
    }

    /// Installs the requested recording mode, unless the continuous-
    /// integration environment variable (whose value the caller reads and
    /// passes in) forces recording off.
    pub fn configure_graph_recording(
        &mut self,
        recording: Build001GraphRecording,
        ci_env: Option<String>,
    )
        requires
            old(self).wf(),
        ensures
            final(self).wf(),
            final(self).spec_graph_recording() == if spec_ci_forces_off(
                match ci_env {
                    Option::Some(s) => Some(s@),
                    Option::None => Option::None,
                },
            ) {
                Build001GraphRecording::spec_off()
            } else {
                recording
            },
            final(self).spec_outward_error() == old(self).spec_outward_error(),
            final(self).spec_enabled_codecs() == old(self).spec_enabled_codecs(),
            final(self).spec_counters() == old(self).spec_counters(),
            final(self).io_ids() == old(self).io_ids(),
            final(self).spec_security() == old(self).spec_security(),
            final(self).spec_bitmaps() == old(self).spec_bitmaps(),
            final(self).spec_allocations() == old(self).spec_allocations(),
            forall|id: i32| #[trigger] final(self).codec_of(id) == old(self).codec_of(id),
    {
        let forces_off = match &ci_env {
            Some(s) => ci_value_is_true(s),
            None => false,
        };
        if forces_off {
            self.graph_recording = Build001GraphRecording::off();
        } else {
            self.graph_recording = recording;
        }
    }

    pub fn graph_recording(&self) -> (r: Build001GraphRecording)
        ensures
            r == self.spec_graph_recording(),
    {
        self.graph_recording
    }

    pub fn security(&self) -> (r: ExecutionSecurity)
        ensures
            r == self.spec_security(),
    {
        self.security
    }

    /// The bytes accumulated so far for an output buffer. `InvalidArgument`
    /// reports an io_id that is registered but is not an output buffer.
    pub fn get_output_buffer_slice(&self, io_id: i32) -> (r: Result<&[u8], FlowError>)
        requires
            self.wf(),
        ensures
            r is Ok <==> self.contains_codec(io_id) && !self.is_codec_borrowed(io_id)
                && self.output_bytes_of(io_id) is Some,
            r is Ok ==> r->Ok_0@ == self.output_bytes_of(io_id)->0,
            r is Err ==> (r->Err_0.kind == ErrorKind::InvalidArgument <==>
                (self.contains_codec(io_id) && !self.is_codec_borrowed(io_id)
                    && self.output_bytes_of(io_id) is None)),
            r is Err ==> (r->Err_0.kind == ErrorKind::FailedBorrow <==>
                !(self.contains_codec(io_id) && !self.is_codec_borrowed(io_id))
                    && self.any_codec_borrowed()),
            r is Err ==> (r->Err_0.kind == ErrorKind::InvalidArgument
                || r->Err_0.kind == ErrorKind::FailedBorrow
                || r->Err_0.kind == ErrorKind::IoIdNotFound),
    {
        let codec = match self.codecs.peek(io_id) {
            Ok(c) => c,
            Err(e) => return Err(e),
        };
        match codec.get_encode_io() {
            Some(io) => {
                match io.get_output_buffer_bytes() {
                    Ok(buffer) => Ok(buffer.as_slice()),
                    Err(e) => {
                        proof {
                            assert(false);
                        }
                        Err(e)
                    }
                }
            }
            None => Err(FlowError::new(ErrorKind::InvalidArgument,
                "the io_id is not an output buffer".to_string())),
        }
    }

    /// Appends bytes to the output buffer registered under the io_id, as an
    /// encoder does when it emits a frame.
    pub fn write_to_output_buffer(&mut self, io_id: i32, bytes: &[u8]) -> (r: Result<(),
        FlowError>)
        requires
            old(self).wf(),
        ensures
            final(self).wf(),
            spec_same_config(old(self), final(self)),
            final(self).io_ids() == old(self).io_ids(),
            r is Ok <==> old(self).contains_codec(io_id) && !old(self).is_codec_borrowed(io_id)
                && old(self).output_bytes_of(io_id) is Some,
            r is Ok ==> final(self).output_bytes_of(io_id)
                == Some(old(self).output_bytes_of(io_id)->0 + bytes@),
            r is Ok ==> final(self).contains_codec(io_id)
                && !final(self).is_codec_borrowed(io_id),
            forall|id: i32|
                #![trigger final(self).codec_of(id)]
                #![trigger final(self).contains_codec(id)]
                #![trigger final(self).is_codec_borrowed(id)]
                id != io_id ==>
                    final(self).codec_of(id) == old(self).codec_of(id)
                        && final(self).contains_codec(id) == old(self).contains_codec(id)
                        && (final(self).is_codec_borrowed(id) == old(self).is_codec_borrowed(id)),
            r is Err ==> final(self).codec_of(io_id) == old(self).codec_of(io_id)
                && final(self).contains_codec(io_id) == old(self).contains_codec(io_id)
                && (final(self).is_codec_borrowed(io_id) == old(self).is_codec_borrowed(io_id)),
            r is Err ==> (r->Err_0.kind == ErrorKind::InvalidArgument <==>
                (old(self).contains_codec(io_id) && !old(self).is_codec_borrowed(io_id)
                    && old(self).output_bytes_of(io_id) is None)),
            r is Err ==> (r->Err_0.kind == ErrorKind::InvalidArgument
                || r->Err_0.kind == ErrorKind::FailedBorrow
                || r->Err_0.kind == ErrorKind::IoIdNotFound),
            final(self).spec_bitmaps() == old(self).spec_bitmaps(),
            final(self).spec_allocations() == old(self).spec_allocations(),
            final(self).spec_security() == old(self).spec_security(),
    {
        let mut codec = match self.codecs.checkout(io_id) {
            Ok(c) => c,
            Err(e) => return Err(e),
        };
        let write_result = codec.write_to_output(bytes);
        match self.codecs.checkin(codec) {
            Ok(()) => {}
            Err(e) => {
                proof {
                    assert(false);
                }
                return Err(e);
            }
        }
        write_result
    }

    /// Metadata of the input registered under the io_id, straight from its
    /// stream's header, without decoding pixels.
    pub fn get_unscaled_unrotated_image_info(&mut self, io_id: i32) -> (r: Result<ImageInfo,
        FlowError>)
        requires
            old(self).wf(),
        ensures
            final(self).wf(),
            spec_same_config(old(self), final(self)),
            final(self).io_ids() == old(self).io_ids(),
            r is Ok <==> spec_decode_entry(old(self), io_id) is Some,
            r is Ok ==> {
                let (w, h) = spec_decode_entry(old(self), io_id)->0;
                &&& r->Ok_0.image_width == w as i32
                &&& r->Ok_0.image_height == h as i32
                &&& r->Ok_0.preferred_mime_type@ == "image/png"@
                &&& r->Ok_0.preferred_extension@ == "png"@
            },
            forall|id: i32|
                #![trigger final(self).codec_of(id)]
                #![trigger final(self).contains_codec(id)]
                #![trigger final(self).is_codec_borrowed(id)]
                final(self).codec_of(id) == old(self).codec_of(id)
                    && final(self).contains_codec(id) == old(self).contains_codec(id)
                    && (final(self).is_codec_borrowed(id) == old(self).is_codec_borrowed(id)),
            r is Err ==> (r->Err_0.kind == ErrorKind::InvalidArgument <==>
                (old(self).contains_codec(io_id) && !old(self).is_codec_borrowed(io_id)
                    && old(self).decoder_bytes_of(io_id) is None)),
            r is Err ==> (r->Err_0.kind == ErrorKind::FailedBorrow <==>
                !(old(self).contains_codec(io_id) && !old(self).is_codec_borrowed(io_id))
                    && old(self).any_codec_borrowed()),
            r is Err ==> (r->Err_0.kind == ErrorKind::InvalidArgument
                || r->Err_0.kind == ErrorKind::FailedBorrow
                || r->Err_0.kind == ErrorKind::IoIdNotFound
                || r->Err_0.kind == ErrorKind::ImageDecodingError),
            final(self).spec_bitmaps() == old(self).spec_bitmaps(),
            final(self).spec_allocations() == old(self).spec_allocations(),
            final(self).spec_security() == old(self).spec_security(),
    {
        let codec = match self.codecs.checkout(io_id) {
            Ok(c) => c,
            Err(e) => return Err(e),
        };
        let info_result = match codec.get_decoder() {
            Ok(decoder) => decoder.get_unscaled_image_info(),
            Err(e) => Err(e),
        };
        match self.codecs.checkin(codec) {
            Ok(()) => {}
            Err(e) => {
                proof {
                    assert(false);
                }
                return Err(e);
            }
        }
        info_result
    }

    /// PNG knows no scale-on-decode mode, so this equals the unscaled query.
    pub fn get_scaled_unrotated_image_info(&mut self, io_id: i32) -> (r: Result<ImageInfo,
        FlowError>)
        requires
            old(self).wf(),
        ensures
            final(self).wf(),
            spec_same_config(old(self), final(self)),
            final(self).io_ids() == old(self).io_ids(),
            r is Ok <==> spec_decode_entry(old(self), io_id) is Some,
            r is Ok ==> {
                let (w, h) = spec_decode_entry(old(self), io_id)->0;
                &&& r->Ok_0.image_width == w as i32
                &&& r->Ok_0.image_height == h as i32
                &&& r->Ok_0.preferred_mime_type@ == "image/png"@
                &&& r->Ok_0.preferred_extension@ == "png"@
            },
            forall|id: i32|
                #![trigger final(self).codec_of(id)]
                #![trigger final(self).contains_codec(id)]
                #![trigger final(self).is_codec_borrowed(id)]
                final(self).codec_of(id) == old(self).codec_of(id)
                    && final(self).contains_codec(id) == old(self).contains_codec(id)
                    && (final(self).is_codec_borrowed(id) == old(self).is_codec_borrowed(id)),
            final(self).spec_bitmaps() == old(self).spec_bitmaps(),
            final(self).spec_allocations() == old(self).spec_allocations(),
            final(self).spec_security() == old(self).spec_security(),
    {
        self.get_unscaled_unrotated_image_info(io_id)
    }

    /// The EXIF orientation of the input, when its format carries one; the
    /// PNG format does not, so a PNG input reports none.
    pub fn get_exif_rotation_flag(&mut self, io_id: i32) -> (r: Result<Option<i32>, FlowError>)
        requires
            old(self).wf(),
        ensures
            final(self).wf(),
            spec_same_config(old(self), final(self)),
            final(self).io_ids() == old(self).io_ids(),
            r is Ok <==> old(self).contains_codec(io_id) && !old(self).is_codec_borrowed(io_id)
                && old(self).decoder_bytes_of(io_id) is Some,
            r is Ok ==> r->Ok_0 is None,
            forall|id: i32|
                #![trigger final(self).codec_of(id)]
                #![trigger final(self).contains_codec(id)]
                #![trigger final(self).is_codec_borrowed(id)]
                final(self).codec_of(id) == old(self).codec_of(id)
                    && final(self).contains_codec(id) == old(self).contains_codec(id)
                    && (final(self).is_codec_borrowed(id) == old(self).is_codec_borrowed(id)),
            final(self).spec_bitmaps() == old(self).spec_bitmaps(),
            final(self).spec_allocations() == old(self).spec_allocations(),
            final(self).spec_security() == old(self).spec_security(),
    {
        let codec = match self.codecs.checkout(io_id) {
            Ok(c) => c,
            Err(e) => return Err(e),
        };
        let flag_result = match codec.get_decoder() {
            Ok(decoder) => decoder.get_exif_rotation_flag(),
            Err(e) => Err(e),
        };
        match self.codecs.checkin(codec) {
            Ok(()) => {}
            Err(e) => {
                proof {
                    assert(false);
                }
                return Err(e);
            }
        }
        flag_result
    }

    /// Metadata with the EXIF rotation applied: width and height swap exactly
    /// when the orientation flag is 5, 6, 7 or 8. PNG inputs carry no flag,
    /// so their rotated metadata equals the unrotated.
    pub fn get_unscaled_rotated_image_info(&mut self, io_id: i32) -> (r: Result<ImageInfo,
        FlowError>)
        requires
            old(self).wf(),
        ensures
            final(self).wf(),
            spec_same_config(old(self), final(self)),
            final(self).io_ids() == old(self).io_ids(),
            r is Ok <==> spec_decode_entry(old(self), io_id) is Some,
            r is Ok ==> {
                let (w, h) = spec_decode_entry(old(self), io_id)->0;
                &&& r->Ok_0.image_width == w as i32
                &&& r->Ok_0.image_height == h as i32
                &&& r->Ok_0.preferred_mime_type@ == "image/png"@
                &&& r->Ok_0.preferred_extension@ == "png"@
            },
            forall|id: i32|
                #![trigger final(self).codec_of(id)]
                #![trigger final(self).contains_codec(id)]
                #![trigger final(self).is_codec_borrowed(id)]
                final(self).codec_of(id) == old(self).codec_of(id)
                    && final(self).contains_codec(id) == old(self).contains_codec(id)
                    && (final(self).is_codec_borrowed(id) == old(self).is_codec_borrowed(id)),
            final(self).spec_bitmaps() == old(self).spec_bitmaps(),
            final(self).spec_allocations() == old(self).spec_allocations(),
            final(self).spec_security() == old(self).spec_security(),
    {
        let mut info = match self.get_unscaled_unrotated_image_info(io_id) {
            Ok(i) => i,
            Err(e) => return Err(e),
        };
        let flag = match self.get_exif_rotation_flag(io_id) {
            Ok(f) => f,
            Err(e) => {
                proof {
                    assert(false);
                }
                return Err(e);
            }
        };
        swap_dims_if_rotated(flag, &mut info);
        Ok(info)
    }

    /// The scaled, rotated metadata; for PNG both refinements are identities.
    pub fn get_scaled_rotated_image_info(&mut self, io_id: i32) -> (r: Result<ImageInfo,
        FlowError>)
        requires
            old(self).wf(),
        ensures
            final(self).wf(),
            spec_same_config(old(self), final(self)),
            final(self).io_ids() == old(self).io_ids(),
            r is Ok <==> spec_decode_entry(old(self), io_id) is Some,
            r is Ok ==> {
                let (w, h) = spec_decode_entry(old(self), io_id)->0;
                &&& r->Ok_0.image_width == w as i32
                &&& r->Ok_0.image_height == h as i32
                &&& r->Ok_0.preferred_mime_type@ == "image/png"@
                &&& r->Ok_0.preferred_extension@ == "png"@
            },
            forall|id: i32|
                #![trigger final(self).codec_of(id)]
                #![trigger final(self).contains_codec(id)]
                #![trigger final(self).is_codec_borrowed(id)]
                final(self).codec_of(id) == old(self).codec_of(id)
                    && final(self).contains_codec(id) == old(self).contains_codec(id)
                    && (final(self).is_codec_borrowed(id) == old(self).is_codec_borrowed(id)),
            final(self).spec_bitmaps() == old(self).spec_bitmaps(),
            final(self).spec_allocations() == old(self).spec_allocations(),
            final(self).spec_security() == old(self).spec_security(),
    {
        self.get_unscaled_rotated_image_info(io_id)
    }

    /// Forwards a command to the decoder under the io_id; decoders ignore
    /// commands they do not know, and the PNG decoder knows none.
    pub fn tell_decoder(&mut self, io_id: i32, tell: DecoderCommand) -> (r: Result<(), FlowError>)
        requires
            old(self).wf(),
        ensures
            final(self).wf(),
            spec_same_config(old(self), final(self)),
            final(self).io_ids() == old(self).io_ids(),
            r is Ok <==> old(self).contains_codec(io_id) && !old(self).is_codec_borrowed(io_id)
                && old(self).decoder_bytes_of(io_id) is Some,
            forall|id: i32|
                #![trigger final(self).codec_of(id)]
                #![trigger final(self).contains_codec(id)]
                #![trigger final(self).is_codec_borrowed(id)]
                final(self).codec_of(id) == old(self).codec_of(id)
                    && final(self).contains_codec(id) == old(self).contains_codec(id)
                    && (final(self).is_codec_borrowed(id) == old(self).is_codec_borrowed(id)),
            final(self).spec_bitmaps() == old(self).spec_bitmaps(),
            final(self).spec_allocations() == old(self).spec_allocations(),
            final(self).spec_security() == old(self).spec_security(),
    {
        let codec = match self.codecs.checkout(io_id) {
            Ok(c) => c,
            Err(e) => return Err(e),
        };
        let tell_result = match codec.get_decoder() {
            Ok(decoder) => decoder.tell_decoder(tell),
            Err(e) => Err(e),
        };
        match self.codecs.checkin(codec) {
            Ok(()) => {}
            Err(e) => {
                proof {
                    assert(false);
                }
                return Err(e);
            }
        }
        tell_result
    }

    /// Metadata for every registered input, sorted by io_id; inputs whose
    /// metadata query fails are silently omitted.
    pub fn get_image_decodes(&mut self) -> (r: Vec<DecodeResult>)
        requires
            old(self).wf(),
        ensures
            final(self).wf(),
            spec_same_config(old(self), final(self)),
            final(self).io_ids() == old(self).io_ids(),
            forall|i: int, j: int| 0 <= i <= j < r@.len() ==>
                (#[trigger] r@[i]).io_id <= (#[trigger] r@[j]).io_id,
            forall|i: int, j: int| 0 <= i < j < r@.len() ==>
                (#[trigger] r@[i]).io_id < (#[trigger] r@[j]).io_id,
            forall|i: int| 0 <= i < r@.len() ==> {
                let entry = #[trigger] r@[i];
                &&& old(self).io_ids().contains(entry.io_id)
                &&& entry.w >= 0 && entry.h >= 0
                &&& spec_decode_entry(old(self), entry.io_id)
                    == Some((entry.w as u32, entry.h as u32))
                &&& entry.preferred_mime_type@ == "image/png"@
                &&& entry.preferred_extension@ == "png"@
            },
            forall|k: int| 0 <= k < old(self).io_ids().len()
                && spec_decode_entry(old(self), #[trigger] old(self).io_ids()[k]) is Some ==>
                exists|i: int| 0 <= i < r@.len()
                    && (#[trigger] r@[i]).io_id == old(self).io_ids()[k],
            forall|id: i32|
                #![trigger final(self).codec_of(id)]
                #![trigger final(self).contains_codec(id)]
                #![trigger final(self).is_codec_borrowed(id)]
                final(self).codec_of(id) == old(self).codec_of(id)
                    && final(self).contains_codec(id) == old(self).contains_codec(id)
                    && (final(self).is_codec_borrowed(id) == old(self).is_codec_borrowed(id)),
            final(self).spec_bitmaps() == old(self).spec_bitmaps(),
            final(self).spec_allocations() == old(self).spec_allocations(),
            final(self).spec_security() == old(self).spec_security(),
    {
        let mut ids: Vec<i32> = Vec::with_capacity(self.io_id_list.len());
        let mut i: usize = 0;
        while i < self.io_id_list.len()
            invariant
                i <= self.io_id_list@.len(),
                ids@ == self.io_id_list@.subrange(0, i as int),
            decreases self.io_id_list@.len() - i,
        {
            ids.push(self.io_id_list[i]);
            i = i + 1;
        }
        proof {
            assert(ids@ =~= self.io_id_list@);
            self.lemma_io_ids_unique();
        }
        let mut entries: Vec<DecodeResult> = Vec::new();
        let mut k: usize = 0;
        while k < ids.len()
            invariant
                self.wf(),
                k <= ids@.len(),
                ids@ == old(self).io_ids(),
                self.io_ids() == old(self).io_ids(),
                forall|id: i32|
                    #![trigger self.codec_of(id)]
                    #![trigger self.contains_codec(id)]
                    #![trigger self.is_codec_borrowed(id)]
                    self.codec_of(id) == old(self).codec_of(id)
                        && self.contains_codec(id) == old(self).contains_codec(id)
                        && (self.is_codec_borrowed(id) == old(self).is_codec_borrowed(id)),
                self.spec_bitmaps() == old(self).spec_bitmaps(),
                self.spec_allocations() == old(self).spec_allocations(),
                self.spec_security() == old(self).spec_security(),
                spec_same_config(old(self), self),
                forall|a: int, b: int| 0 <= a < b < ids@.len() ==>
                    (#[trigger] ids@[a]) != (#[trigger] ids@[b]),
                forall|i2: int| 0 <= i2 < entries@.len() ==> exists|k2: int|
                    0 <= k2 < k && ids@[k2] == (#[trigger] entries@[i2]).io_id,
                forall|i2: int, j2: int| 0 <= i2 < j2 < entries@.len() ==>
                    (#[trigger] entries@[i2]).io_id != (#[trigger] entries@[j2]).io_id,
                forall|i2: int| 0 <= i2 < entries@.len() ==> {
                    let entry = #[trigger] entries@[i2];
                    &&& old(self).io_ids().contains(entry.io_id)
                    &&& entry.w >= 0 && entry.h >= 0
                    &&& spec_decode_entry(old(self), entry.io_id)
                        == Some((entry.w as u32, entry.h as u32))
                    &&& entry.preferred_mime_type@ == "image/png"@
                    &&& entry.preferred_extension@ == "png"@
                },
                forall|k2: int| 0 <= k2 < k
                    && spec_decode_entry(old(self), #[trigger] ids@[k2]) is Some ==>
                    exists|i2: int| 0 <= i2 < entries@.len()
                        && (#[trigger] entries@[i2]).io_id == ids@[k2],
            decreases ids@.len() - k,
        {
            let io_id = ids[k];
            let ghost entries_before = entries@;
            match self.get_unscaled_rotated_image_info(io_id) {
                Ok(info) => {
                    proof {
                        assert(old(self).io_ids().contains(io_id));
                        assert forall|i2: int| 0 <= i2 < entries_before.len() implies
                            (#[trigger] entries_before[i2]).io_id != io_id by {
                            let k2 = choose|k2: int| 0 <= k2 < k
                                && ids@[k2] == entries_before[i2].io_id;
                            assert(ids@[k2] != ids@[k as int]);
                        }
                    }
                    entries.push(DecodeResult {
                        io_id,
                        preferred_mime_type: info.preferred_mime_type,
                        preferred_extension: info.preferred_extension,
                        w: info.image_width,
                        h: info.image_height,
                    });
                    proof {
                        assert(entries@[entries@.len() - 1].io_id == ids@[k as int]);
                    }
                }
                Err(_) => {}
            }
            proof {
                assert forall|k2: int| 0 <= k2 < k + 1
                    && spec_decode_entry(old(self), #[trigger] ids@[k2]) is Some implies
                    exists|i2: int| 0 <= i2 < entries@.len()
                        && (#[trigger] entries@[i2]).io_id == ids@[k2] by {
                    if k2 < k {
                        let i2 = choose|i2: int| 0 <= i2 < entries_before.len()
                            && (#[trigger] entries_before[i2]).io_id == ids@[k2];
                        assert(entries@[i2].io_id == ids@[k2]);
                    } else {
                        assert(entries@[entries@.len() - 1].io_id == ids@[k2]);
                    }
                }
            }
            k = k + 1;
        }
        let ghost all_entries = entries@;
        let sorted = sorted_by_io_id(entries);
        proof {
            assert forall|i: int| 0 <= i < sorted@.len() implies {
                let entry = #[trigger] sorted@[i];
                &&& old(self).io_ids().contains(entry.io_id)
                &&& entry.w >= 0 && entry.h >= 0
                &&& spec_decode_entry(old(self), entry.io_id)
                    == Some((entry.w as u32, entry.h as u32))
                &&& entry.preferred_mime_type@ == "image/png"@
                &&& entry.preferred_extension@ == "png"@
            } by {
                assert(sorted@.contains(sorted@[i]));
                assert(all_entries.contains(sorted@[i]));
                let j = choose|j: int| 0 <= j < all_entries.len()
                    && all_entries[j] == sorted@[i];
                assert(all_entries[j] == sorted@[i]);
            }
            assert forall|k2: int| 0 <= k2 < old(self).io_ids().len()
                && spec_decode_entry(old(self), #[trigger] old(self).io_ids()[k2]) is Some implies
                exists|i: int| 0 <= i < sorted@.len()
                    && (#[trigger] sorted@[i]).io_id == old(self).io_ids()[k2] by {
                let i2 = choose|i2: int| 0 <= i2 < all_entries.len()
                    && (#[trigger] all_entries[i2]).io_id == old(self).io_ids()[k2];
                assert(all_entries.contains(all_entries[i2]));
                assert(sorted@.contains(all_entries[i2]));
                let i3 = choose|i3: int| 0 <= i3 < sorted@.len()
                    && sorted@[i3] == all_entries[i2];
                assert(sorted@[i3].io_id == old(self).io_ids()[k2]);
            }
        }
        sorted
    }
}

/// Whether decoding a frame of the input under `io_id` succeeds: the codec is
/// accessible and holds a decoder whose stream decodes into a frame that fits
/// the job's frame-size cap.
pub open spec fn spec_ctx_read_frame_ok(ctx: &Context, io_id: i32) -> bool {
    &&& ctx.contains_codec(io_id)
    &&& !ctx.is_codec_borrowed(io_id)
    &&& ctx.codec_of(io_id)->0.spec_codec() is Decoder
    &&& (ctx.codec_of(io_id)->0.spec_codec()->Decoder_0).spec_read_frame_ok(
        &ctx.spec_bitmaps(),
        ctx.spec_security().max_frame_size,
    )
}

/// Whether the codec under `io_id` is reachable for a decode: registered,
/// not checked out, and a decoder.
pub open spec fn spec_ctx_decoder_accessible(ctx: &Context, io_id: i32) -> bool {
    &&& ctx.contains_codec(io_id)
    &&& !ctx.is_codec_borrowed(io_id)
    &&& ctx.codec_of(io_id)->0.spec_codec() is Decoder
}

/// Whether a frame decode of the input under `io_id` would get as far as a
/// parsed frame, after which the frame's own shape decides the error kind.
pub open spec fn spec_ctx_frame_reached(ctx: &Context, io_id: i32) -> bool {
    &&& spec_ctx_decoder_accessible(ctx, io_id)
    &&& (ctx.codec_of(io_id)->0.spec_codec()->Decoder_0).spec_frame_reached(
        &ctx.spec_bitmaps(),
        ctx.spec_security().max_frame_size,
    )
}

/// Whether encoding the bitmap under `key` into the output under `io_id`
/// succeeds: the output buffer and the bitmap are accessible, the bitmap is
/// an unpadded BGRA frame of encodable dimensions, and the encoder accepts it.
pub open spec fn spec_ctx_encode_ok(ctx: &Context, io_id: i32, key: BitmapKey) -> bool {
    &&& ctx.contains_codec(io_id)
    &&& !ctx.is_codec_borrowed(io_id)
    &&& ctx.output_bytes_of(io_id) is Some
    &&& ctx.spec_bitmaps().contains_key(key)
    &&& !ctx.spec_bitmaps().is_borrowed(key)
    &&& {
        let b = ctx.spec_bitmaps().bitmap_of(key)->0;
        &&& b.spec_layout() == crate::types::PixelLayout::BGRA
        &&& b.spec_stride() == 4 * b.spec_width()
        &&& b.spec_width() <= i32::MAX
        &&& b.spec_height() <= i32::MAX
        &&& crate::image_png_encoder::png_encoding_of(
            b.spec_width(),
            b.spec_height(),
            crate::image_png_encoder::spec_rgba_of_bgra(b.spec_data()),
        ) is Some
    }
}

impl Context {
    /// Decodes the next frame of the input registered under the io_id into a
    /// fresh BGRA bitmap of the job, honoring the frame-size cap before
    /// allocating, and returns the bitmap's key.
    pub fn read_frame(&mut self, io_id: i32) -> (r: Result<BitmapKey, FlowError>)
        requires
            old(self).wf(),
        ensures
            final(self).wf(),
            spec_same_config(old(self), final(self)),
            final(self).io_ids() == old(self).io_ids(),
            r is Ok <==> spec_ctx_read_frame_ok(old(self), io_id),
            r is Ok ==> {
                let bytes = old(self).decoder_bytes_of(io_id)->0;
                let dims = crate::image_png_decoder::png_dimensions_of(bytes)->0;
                let (d, fw, fh, ls, ct, bd) = crate::image_png_decoder::png_frame_of(bytes)->0;
                let key = r->Ok_0;
                let b = final(self).spec_bitmaps().bitmap_of(key)->0;
                &&& !old(self).spec_bitmaps().contains_key(key)
                &&& final(self).spec_bitmaps().contains_key(key)
                &&& !final(self).spec_bitmaps().is_borrowed(key)
                &&& final(self).spec_bitmaps().bitmap_of(key) is Some
                &&& b.wf()
                &&& b.spec_width() == dims.0
                &&& b.spec_height() == dims.1
                &&& b.spec_layout() == crate::types::PixelLayout::BGRA
                &&& b.spec_stride() == 4 * dims.0
                &&& b.spec_color_space() == crate::types::ColorSpace::StandardRGB
                &&& b.spec_compositing() == crate::types::BitmapCompositing::ReplaceSelf
                &&& b.spec_data() == crate::pixel_convert::spec_bgra_frame(
                    crate::pixel_convert::PngColorKind::spec_from_code(ct)->0,
                    d,
                    dims.0 as nat,
                    dims.1 as nat,
                    ls,
                )
            },
            forall|k: BitmapKey|
                #![trigger final(self).spec_bitmaps().contains_key(k)]
                #![trigger final(self).spec_bitmaps().bitmap_of(k)]
                #![trigger final(self).spec_bitmaps().is_borrowed(k)]
                old(self).spec_bitmaps().contains_key(k) ==>
                    final(self).spec_bitmaps().contains_key(k)
                        && final(self).spec_bitmaps().bitmap_of(k)
                            == old(self).spec_bitmaps().bitmap_of(k)
                        && (final(self).spec_bitmaps().is_borrowed(k)
                            == old(self).spec_bitmaps().is_borrowed(k)),
            forall|id: i32|
                #![trigger final(self).codec_of(id)]
                #![trigger final(self).contains_codec(id)]
                #![trigger final(self).is_codec_borrowed(id)]
                final(self).codec_of(id) == old(self).codec_of(id)
                    && final(self).contains_codec(id) == old(self).contains_codec(id)
                    && (final(self).is_codec_borrowed(id) == old(self).is_codec_borrowed(id)),
            r is Err ==> (r->Err_0.kind == ErrorKind::SizeLimitExceeded ==>
                final(self).spec_bitmaps() == old(self).spec_bitmaps()),
            r is Err ==> (r->Err_0.kind == ErrorKind::SizeLimitExceeded <==>
                spec_ctx_decoder_accessible(old(self), io_id)
                    && crate::image_png_decoder::png_dimensions_of(
                        old(self).decoder_bytes_of(io_id)->0) is Some
                    && !{
                        let (w, h) = crate::image_png_decoder::png_dimensions_of(
                            old(self).decoder_bytes_of(io_id)->0)->0;
                        crate::bitmaps::spec_fits_limit(
                            old(self).spec_security().max_frame_size, w, h)
                            && crate::bitmaps::spec_fits_machine(
                                w, h, crate::types::PixelLayout::BGRA)
                    }),
            r is Err ==> (spec_ctx_decoder_accessible(old(self), io_id)
                && crate::image_png_decoder::png_dimensions_of(
                    old(self).decoder_bytes_of(io_id)->0) is None ==>
                    r->Err_0.kind == ErrorKind::ImageDecodingError),
            r is Err ==> (spec_ctx_frame_reached(old(self), io_id) ==> {
                let (d, fw, fh, ls, ct, bd) = crate::image_png_decoder::png_frame_of(
                    old(self).decoder_bytes_of(io_id)->0)->0;
                &&& (bd != 8 ==> r->Err_0.kind == ErrorKind::ImageDecodingError)
                &&& (bd == 8 && crate::pixel_convert::PngColorKind::spec_from_code(ct)
                    == Some(crate::pixel_convert::PngColorKind::Indexed)
                    ==> r->Err_0.kind == ErrorKind::InternalError)
            }),
            r is Err ==> (r->Err_0.kind == ErrorKind::SizeLimitExceeded
                || r->Err_0.kind == ErrorKind::ImageDecodingError
                || r->Err_0.kind == ErrorKind::InternalError
                || r->Err_0.kind == ErrorKind::InvalidArgument
                || r->Err_0.kind == ErrorKind::FailedBorrow
                || r->Err_0.kind == ErrorKind::IoIdNotFound),
            final(self).spec_allocations() == old(self).spec_allocations(),
            final(self).spec_security() == old(self).spec_security(),
    {
        let max_frame_size = self.security.max_frame_size;
        let codec = match self.codecs.checkout(io_id) {
            Ok(c) => c,
            Err(e) => return Err(e),
        };
        let frame_result = match codec.get_decoder() {
            Ok(decoder) => decoder.read_frame(&mut self.bitmaps, max_frame_size),
            Err(e) => Err(e),
        };
        match self.codecs.checkin(codec) {
            Ok(()) => {}
            Err(e) => {
                proof {
                    assert(false);
                }
                return Err(e);
            }
        }
        frame_result
    }

    /// Encodes the BGRA bitmap under `key` as a PNG and appends the encoding
    /// to the output buffer registered under `io_id`.
    pub fn encode_frame_to_output(&mut self, io_id: i32, key: BitmapKey) -> (r: Result<
        crate::types::EncodeResult,
        FlowError,
    >)
        requires
            old(self).wf(),
        ensures
            final(self).wf(),
            spec_same_config(old(self), final(self)),
            final(self).io_ids() == old(self).io_ids(),
            r is Ok <==> spec_ctx_encode_ok(old(self), io_id, key),
            r is Ok ==> {
                let b = old(self).spec_bitmaps().bitmap_of(key)->0;
                let encoded = crate::image_png_encoder::png_encoding_of(
                    b.spec_width(),
                    b.spec_height(),
                    crate::image_png_encoder::spec_rgba_of_bgra(b.spec_data()),
                )->0;
                &&& final(self).output_bytes_of(io_id)
                    == Some(old(self).output_bytes_of(io_id)->0 + encoded)
                &&& encoded.len() >= 8
                &&& encoded.subrange(0, 8) == crate::image_png_decoder::spec_png_signature()
                &&& r->Ok_0.io_id == io_id
                &&& r->Ok_0.w == b.spec_width() as i32
                &&& r->Ok_0.h == b.spec_height() as i32
                &&& r->Ok_0.bytes_written == encoded.len()
                &&& r->Ok_0.preferred_mime_type@ == "image/png"@
                &&& r->Ok_0.preferred_extension@ == "png"@
            },
            r is Err ==> forall|id: i32|
                #![trigger final(self).codec_of(id)]
                final(self).codec_of(id) == old(self).codec_of(id),
            forall|id: i32|
                #![trigger final(self).contains_codec(id)]
                #![trigger final(self).is_codec_borrowed(id)]
                final(self).contains_codec(id) == old(self).contains_codec(id)
                    && (final(self).is_codec_borrowed(id) == old(self).is_codec_borrowed(id)),
            forall|id: i32| #![trigger final(self).codec_of(id)] id != io_id ==>
                final(self).codec_of(id) == old(self).codec_of(id),
            forall|k: BitmapKey|
                #![trigger final(self).spec_bitmaps().contains_key(k)]
                #![trigger final(self).spec_bitmaps().bitmap_of(k)]
                #![trigger final(self).spec_bitmaps().is_borrowed(k)]
                final(self).spec_bitmaps().contains_key(k)
                    == old(self).spec_bitmaps().contains_key(k)
                    && final(self).spec_bitmaps().bitmap_of(k)
                        == old(self).spec_bitmaps().bitmap_of(k)
                    && (final(self).spec_bitmaps().is_borrowed(k)
                        == old(self).spec_bitmaps().is_borrowed(k)),
            r is Err ==> (r->Err_0.kind == ErrorKind::ImageEncodingError
                || r->Err_0.kind == ErrorKind::InvalidArgument
                || r->Err_0.kind == ErrorKind::FailedBorrow
                || r->Err_0.kind == ErrorKind::IoIdNotFound),
            final(self).spec_allocations() == old(self).spec_allocations(),
            final(self).spec_security() == old(self).spec_security(),
    {
        let mut codec = match self.codecs.checkout(io_id) {
            Ok(c) => c,
            Err(e) => return Err(e),
        };
        let is_sink = match codec.get_encode_io() {
            Some(_) => true,
            None => false,
        };
        if !is_sink {
            match self.codecs.checkin(codec) {
                Ok(()) => {}
                Err(e) => {
                    proof {
                        assert(false);
                    }
                    return Err(e);
                }
            }
            return Err(FlowError::new(ErrorKind::InvalidArgument,
                "the io_id is not an output buffer".to_string()));
        }
        let window = match self.bitmaps.try_borrow_mut(key) {
            Ok(win) => win,
            Err(e) => {
                match self.codecs.checkin(codec) {
                    Ok(()) => {}
                    Err(e2) => {
                        proof {
                            assert(false);
                        }
                        return Err(e2);
                    }
                }
                return Err(FlowError::new(if e.kind() == ErrorKind::FailedBorrow {
                    ErrorKind::FailedBorrow
                } else {
                    ErrorKind::InvalidArgument
                }, "the bitmap key cannot be borrowed".to_string()));
            }
        };
        let w = window.bitmap.width();
        let h = window.bitmap.height();
        let shape_ok = window.bitmap.layout() == crate::types::PixelLayout::BGRA
            && (window.bitmap.stride() as u64) == 4 * (w as u64)
            && w <= i32::MAX as u32 && h <= i32::MAX as u32;
        if !shape_ok {
            match self.bitmaps.return_window(window) {
                Ok(()) => {}
                Err(e) => {
                    proof {
                        assert(false);
                    }
                    return Err(e);
                }
            }
            match self.codecs.checkin(codec) {
                Ok(()) => {}
                Err(e) => {
                    proof {
                        assert(false);
                    }
                    return Err(e);
                }
            }
            return Err(FlowError::new(ErrorKind::InvalidArgument,
                "only an unpadded BGRA bitmap of encodable dimensions can be re-encoded"
                    .to_string()));
        }
        proof {
            let ww = w as int;
            let hh = h as int;
            assert(window.bitmap.spec_data().len() == hh * (4 * ww));
            assert(hh * (4 * ww) == 4 * (hh * ww)) by (nonlinear_arith);
            assert((4 * (hh * ww)) % 4 == 0) by (nonlinear_arith);
        }
        let rgba = crate::image_png_encoder::rgba_of_bgra(window.bitmap.data());
        let encode_result = crate::image_png_encoder::png_encode_rgba(w, h, &rgba);
        match self.bitmaps.return_window(window) {
            Ok(()) => {}
            Err(e) => {
                proof {
                    assert(false);
                }
                return Err(e);
            }
        }
        let encoded = match encode_result {
            Ok(v) => v,
            Err(e) => {
                match self.codecs.checkin(codec) {
                    Ok(()) => {}
                    Err(e2) => {
                        proof {
                            assert(false);
                        }
                        return Err(e2);
                    }
                }
                return Err(e);
            }
        };
        let bytes_written = encoded.len();
        match codec.write_to_output(encoded.as_slice()) {
            Ok(()) => {}
            Err(e) => {
                proof {
                    assert(false);
                }
                return Err(e);
            }
        }
        match self.codecs.checkin(codec) {
            Ok(()) => {}
            Err(e) => {
                proof {
                    assert(false);
                }
                return Err(e);
            }
        }
        Ok(crate::types::EncodeResult {
            io_id,
            preferred_mime_type: String::from_str("image/png"),
            preferred_extension: String::from_str("png"),
            w: w as i32,
            h: h as i32,
            bytes_written,
        })
    }
}

/// After any successful `add_*` registration, the io_id list holds the new
/// io_id exactly once: at the end, and nowhere earlier. Together with the
/// registration's own contract — which establishes the codec lookup's success
/// condition, that a codec carries the io_id and is not checked out — this is
/// the registration invariant of the context.
pub proof fn lemma_add_registers_io_id_once(pre: Context, post: Context, io_id: i32)
    requires
        !pre.io_ids().contains(io_id),
        post.io_ids() == pre.io_ids().push(io_id),
    ensures
        post.io_ids().len() > 0,
        post.io_ids()[post.io_ids().len() - 1] == io_id,
        forall|i: int| 0 <= i < post.io_ids().len() - 1 ==> post.io_ids()[i] != io_id,
        post.io_ids().contains(io_id),
{
    assert forall|i: int| 0 <= i < post.io_ids().len() - 1 implies post.io_ids()[i] != io_id by {
        assert(post.io_ids()[i] == pre.io_ids()[i]);
        if pre.io_ids()[i] == io_id {
            assert(pre.io_ids().contains(io_id));
        }
    }
}

/// Round trip: after two writes to an output buffer, the bytes observable
/// through `get_output_buffer_slice` are the prior contents followed by the
/// two writes in order — the buffer is the concatenation of everything the
/// encoder wrote.
pub proof fn lemma_output_buffer_round_trip(
    c0: Context,
    c1: Context,
    c2: Context,
    io_id: i32,
    first: Seq<u8>,
    second: Seq<u8>,
)
    requires
        c0.output_bytes_of(io_id) is Some,
        c1.output_bytes_of(io_id) == Some(c0.output_bytes_of(io_id)->0 + first),
        c2.output_bytes_of(io_id) == Some(c1.output_bytes_of(io_id)->0 + second),
    ensures
        c2.output_bytes_of(io_id) == Some(c0.output_bytes_of(io_id)->0 + (first + second)),
        c0.output_bytes_of(io_id) == Some(Seq::<u8>::empty()) ==>
            c2.output_bytes_of(io_id) == Some(first + second),
{
    assert((c0.output_bytes_of(io_id)->0 + first) + second
        =~= c0.output_bytes_of(io_id)->0 + (first + second));
    if c0.output_bytes_of(io_id) == Some(Seq::<u8>::empty()) {
        assert(Seq::<u8>::empty() + (first + second) =~= first + second);
    }
}

/// The concatenation, in order, of a series of byte chunks.
pub open spec fn spec_concat_chunks(chunks: Seq<Seq<u8>>) -> Seq<u8>
    decreases chunks.len(),
{
    if chunks.len() == 0 {
        Seq::<u8>::empty()
    } else {
        spec_concat_chunks(chunks.drop_last()) + chunks.last()
    }
}

/// Round trip, in general: starting from a freshly registered output buffer,
/// after any series of writes the bytes observable through
/// `get_output_buffer_slice` are exactly the concatenation, in write order,
/// of everything the encoder wrote.
pub proof fn lemma_output_buffer_holds_all_writes(
    states: Seq<Context>,
    chunks: Seq<Seq<u8>>,
    io_id: i32,
)
    requires
        states.len() == chunks.len() + 1,
        states[0].output_bytes_of(io_id) == Some(Seq::<u8>::empty()),
        forall|i: int| 0 <= i < chunks.len() ==>
            (#[trigger] states[i + 1].output_bytes_of(io_id))
                == Some(states[i].output_bytes_of(io_id)->0 + chunks[i]),
    ensures
        states.last().output_bytes_of(io_id) == Some(spec_concat_chunks(chunks)),
    decreases chunks.len(),
{
    if chunks.len() == 0 {
        assert(spec_concat_chunks(chunks) == Seq::<u8>::empty());
        assert(states.last() == states[0]);
        assert(states.last().output_bytes_of(io_id)->0 =~= spec_concat_chunks(chunks));
    } else {
        let n = chunks.len() as int;
        let front_states = states.drop_last();
        let front_chunks = chunks.drop_last();
        assert(front_states[0] == states[0]);
        assert forall|i: int| 0 <= i < front_chunks.len() implies
            (#[trigger] front_states[i + 1].output_bytes_of(io_id))
                == Some(front_states[i].output_bytes_of(io_id)->0 + front_chunks[i]) by {
            assert(front_states[i + 1] == states[i + 1]);
            assert(front_states[i] == states[i]);
            assert(front_chunks[i] == chunks[i]);
            assert(states[i + 1].output_bytes_of(io_id)
                == Some(states[i].output_bytes_of(io_id)->0 + chunks[i]));
        }
        lemma_output_buffer_holds_all_writes(front_states, front_chunks, io_id);
        assert(front_states.last() == states[n - 1]);
        assert(states[n - 1].output_bytes_of(io_id) == Some(spec_concat_chunks(front_chunks)));
        assert(states[n].output_bytes_of(io_id)
            == Some(states[n - 1].output_bytes_of(io_id)->0 + chunks[n - 1]));
        assert(states.last() == states[n]);
        assert(spec_concat_chunks(chunks)
            == spec_concat_chunks(front_chunks) + chunks.last());
        assert(chunks.last() == chunks[n - 1]);
    }
}

/// The PNG signature followed by a one-by-one RGBA information header, the
/// smallest stream that registers as an input.
fn minimal_png_header() -> (bytes: Vec<u8>)
    ensures
        crate::image_png_decoder::spec_has_png_signature(bytes@),
{
    let mut bytes: Vec<u8> = Vec::new();
    bytes.push(137);
    bytes.push(80);
    bytes.push(78);
    bytes.push(71);
    bytes.push(13);
    bytes.push(10);
    bytes.push(26);
    bytes.push(10);
    bytes.push(0);
    bytes.push(0);
    bytes.push(0);
    bytes.push(13);
    bytes.push(73);
    bytes.push(72);
    bytes.push(68);
    bytes.push(82);
    bytes.push(0);
    bytes.push(0);
    bytes.push(0);
    bytes.push(1);
    bytes.push(0);
    bytes.push(0);
    bytes.push(0);
    bytes.push(1);
    bytes.push(8);
    bytes.push(6);
    bytes.push(0);
    bytes.push(0);
    bytes.push(0);
    bytes.push(31);
    bytes.push(21);
    bytes.push(196);
    bytes.push(137);
    proof {
        assert(bytes@.subrange(0, 8)
            =~= crate::image_png_decoder::spec_png_signature());
    }
    bytes
}

/// Exercises the output-buffer query on an io_id that is registered for
/// input: if the stream registers, the query reports `InvalidArgument` and
/// nothing else; the only way registration itself can fail for this stream
/// is an unparseable header.
pub fn test_get_output_buffer_slice_wrong_type_error()
{
    let created = Context::create();
    let mut context = match created {
        Ok(c) => c,
        Err(_) => {
            proof {
                assert(false);
            }
            return;
        }
    };
    let bytes = minimal_png_header();
    let added = context.add_input_buffer(0, bytes.as_slice());
    match added {
        Ok(()) => {
            let slice_result = context.get_output_buffer_slice(0);
            match slice_result {
                Ok(_) => {
                    proof {
                        assert(false);
                    }
                }
                Err(e) => {
                    assert(e.kind == ErrorKind::InvalidArgument);
                }
            }
        }
        Err(e) => {
            assert(e.kind == ErrorKind::ImageDecodingError);
        }
    }
}

/// The rotation rule of the EXIF orientation flag: values 5 through 8 imply a
/// width/height swap; every other value, and a missing flag, leave the
/// dimensions as they are.
pub open spec fn spec_exif_swaps(exif: Option<i32>) -> bool {
    match exif {
        Option::Some(f) => 5 <= f <= 8,
        Option::None => false,
    }
}

/// Applies the EXIF rotation rule to queried metadata: the dimensions swap
/// exactly when the orientation flag is 5, 6, 7 or 8.
pub fn swap_dims_if_rotated(exif: Option<i32>, info: &mut ImageInfo)
    ensures
        final(info).image_width == if spec_exif_swaps(exif) {
            old(info).image_height
        } else {
            old(info).image_width
        },
        final(info).image_height == if spec_exif_swaps(exif) {
            old(info).image_width
        } else {
            old(info).image_height
        },
        final(info).frame_decodes_into == old(info).frame_decodes_into,
        final(info).preferred_mime_type == old(info).preferred_mime_type,
        final(info).preferred_extension == old(info).preferred_extension,
{
    match exif {
        Some(flag) => {
            if 5 <= flag && flag <= 8 {
                let w = info.image_width;
                info.image_width = info.image_height;
                info.image_height = w;
            }
        }
        None => {}
    }
}

/// Runtime test matching `spec_ci_forces_off` for a present value.
fn ci_value_is_true(s: &String) -> (r: bool)
    ensures
        r == spec_ci_forces_off(Some(s@)),
{
    let st = s.as_str();
    if st.unicode_len() != 4 {
        return false;
    }
    let c0 = st.get_char(0);
    let c1 = st.get_char(1);
    let c2 = st.get_char(2);
    let c3 = st.get_char(3);
    (c0 == 'T' || c0 == 't') && (c1 == 'R' || c1 == 'r') && (c2 == 'U' || c2 == 'u')
        && (c3 == 'E' || c3 == 'e')
}

} // verus!


