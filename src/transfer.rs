use vstd::prelude::*;
use crate::multipart::{part_plan, plan_parts, uses_multipart, PartRange};

verus! {

/// Where the copy of one object stands.
#[derive(PartialEq, Eq, Structural, Debug, Clone, Copy)]
pub enum Phase {
    Fetching,
    Putting,
    Initiating,
    Uploading,
    Completing,
    Aborting,
    Succeeded,
    Failed,
}

/// One entry of the manifest that completes a multipart upload.
pub struct CompletedPart {
    pub number: u64,
    pub etag: String,
}

/// What the runner must do next for the object.
pub enum TransferStep {
    /// Open the source object for reading.
    Fetch,
    /// Store the whole object at the destination in one request.
    Put,
    /// Open a multipart upload session at the destination.
    Initiate,
    /// Store this byte range of the object as the given part.
    UploadPart(PartRange),
    /// Finalize the session with this manifest.
    Complete(Vec<CompletedPart>),
    /// Abandon the session and release what it holds at the destination.
    Abort,
    /// Nothing left to do; `true` when the object was copied (or, in a dry
    /// run, would be).
    Finished(bool),
}

/// What came of the last step.
pub enum TransferEvent {
    /// The step went through.
    Completed,
    /// A part was stored, under this ETag.
    PartStored(String),
    /// The step failed.
    Failed,
}

/// Model of a transfer.
pub struct TransferView {
    pub phase: Phase,
    pub multipart: bool,
    pub parts: Seq<PartRange>,
    pub etags: Seq<Seq<char>>,
}

/// The copy of one object from the source to the destination: a single
/// request, or a multipart session whose parts go up in order.
pub struct ObjectTransfer {
    phase: Phase,
    multipart: bool,
    parts: Vec<PartRange>,
    etags: Vec<String>,
}

/// Steps that change the destination.
pub open spec fn is_mutating(s: TransferStep) -> bool {
    match s {
        TransferStep::Put | TransferStep::Initiate | TransferStep::UploadPart(_)
        | TransferStep::Complete(_) | TransferStep::Abort => true,
        _ => false,
    }
}

/// Phases whose step changes the destination.
pub open spec fn is_mutating_phase(p: Phase) -> bool {
    match p {
        Phase::Putting | Phase::Initiating | Phase::Uploading | Phase::Completing
        | Phase::Aborting => true,
        _ => false,
    }
}

/// State of a fresh transfer of an object of `size` bytes.
pub open spec fn initial(size: u64, chunk_size: u64, dry_run: bool) -> TransferView {
    TransferView {
        phase: if dry_run {
            Phase::Succeeded
        } else {
            Phase::Fetching
        },
        multipart: uses_multipart(size, chunk_size),
        parts: if uses_multipart(size, chunk_size) {
            part_plan(size, chunk_size)
        } else {
            Seq::<PartRange>::empty()
        },
        etags: Seq::empty(),
    }
}

/// In a dry run a transfer starts finished and successful, takes no step
/// that changes the destination, and no answer moves it.
pub proof fn law_dry_run_is_inert(size: u64, chunk_size: u64, ev: TransferEvent)
    ensures
        initial(size, chunk_size, true).phase == Phase::Succeeded,
        !is_mutating_phase(initial(size, chunk_size, true).phase),
        initial(size, chunk_size, true).after(ev) == initial(size, chunk_size, true),
{
}

/// Manifest view: part numbers with their ETags.
pub open spec fn manifest_view(m: Seq<CompletedPart>) -> Seq<(u64, Seq<char>)> {
    m.map_values(|c: CompletedPart| (c.number, c.etag@))
}

/// Manifest naming the first `etags.len()` parts, in ascending order.
pub open spec fn manifest_of(etags: Seq<Seq<char>>) -> Seq<(u64, Seq<char>)> {
    Seq::new(etags.len(), |i: int| ((i + 1) as u64, etags[i]))
}

impl View for ObjectTransfer {
    type V = TransferView;

    closed spec fn view(&self) -> TransferView {
        TransferView {
            phase: self.phase,
            multipart: self.multipart,
            parts: self.parts@,
            etags: self.etags@.map_values(|e: String| e@),
        }
    }
}

impl TransferView {
    /// Consistency of phase, mode and progress.
    pub open spec fn wf(self) -> bool {
        &&& self.etags.len() <= self.parts.len()
        &&& self.parts.len() <= u64::MAX
        &&& self.multipart ==> self.parts.len() >= 1
        &&& self.multipart ==> self.phase != Phase::Putting
        &&& !self.multipart ==> self.etags.len() == 0 && match self.phase {
            Phase::Initiating | Phase::Uploading | Phase::Completing | Phase::Aborting => false,
            _ => true,
        }
        &&& (self.phase == Phase::Fetching || self.phase == Phase::Initiating) ==> self.etags.len()
            == 0
        &&& self.phase == Phase::Uploading ==> self.etags.len() < self.parts.len()
        &&& self.phase == Phase::Completing ==> self.etags.len() == self.parts.len()
    }

    /// The state after `ev` answers the step taken in this state.
    pub open spec fn after(self, ev: TransferEvent) -> TransferView {
        let failed = ev is Failed;
        match self.phase {
            Phase::Fetching => TransferView {
                phase: if failed {
                    Phase::Failed
                } else if self.multipart {
                    Phase::Initiating
                } else {
                    Phase::Putting
                },
                ..self
            },
            Phase::Putting => TransferView {
                phase: if failed {
                    Phase::Failed
                } else {
                    Phase::Succeeded
                },
                ..self
            },
            Phase::Initiating => TransferView {
                phase: if failed {
                    Phase::Failed
                } else {
                    Phase::Uploading
                },
                ..self
            },
            Phase::Uploading => match ev {
                TransferEvent::PartStored(e) => TransferView {
                    phase: if self.etags.len() + 1 == self.parts.len() {
                        Phase::Completing
                    } else {
                        Phase::Uploading
                    },
                    etags: self.etags.push(e@),
                    ..self
                },
                _ => TransferView { phase: Phase::Aborting, ..self },
            },
            Phase::Completing => TransferView {
                phase: if failed {
                    Phase::Aborting
                } else {
                    Phase::Succeeded
                },
                ..self
            },
            Phase::Aborting => TransferView { phase: Phase::Failed, ..self },
            _ => self,
        }
    }
}

impl ObjectTransfer {
    /// Start the copy of an object of `size` bytes. Objects larger than
    /// `chunk_size` go up in parts. A dry run is finished at once and touches
    /// nothing.
    pub fn new(size: u64, chunk_size: u64, dry_run: bool) -> (r: ObjectTransfer)
        requires
            chunk_size > 0,
        ensures
            r@.wf(),
            r@ == initial(size, chunk_size, dry_run),
    {
        let multipart = size > chunk_size;
        let parts = if multipart {
            let p = plan_parts(size, chunk_size);
            proof {
                crate::multipart::lemma_part_count_at_most_size(size, chunk_size);
            }
            p
        } else {
            Vec::new()
        };
        let r = ObjectTransfer {
            phase: if dry_run {
                Phase::Succeeded
            } else {
                Phase::Fetching
            },
            multipart,
            parts,
            etags: Vec::new(),
        };
        assert(r@.etags =~= Seq::<Seq<char>>::empty());
        r
    }

    pub fn phase(&self) -> (r: Phase)
        ensures
            r == self@.phase,
    {
        self.phase
    }

    /// The next step. A manifest names exactly the parts stored, numbered
    /// from 1 in ascending order, with the ETags they were stored under.
    pub fn step(&self) -> (r: TransferStep)
        requires
            self@.wf(),
        ensures
            is_mutating(r) == is_mutating_phase(self@.phase),
            match self@.phase {
                Phase::Fetching => r is Fetch,
                Phase::Putting => r is Put,
                Phase::Initiating => r is Initiate,
                Phase::Uploading => r == TransferStep::UploadPart(
                    self@.parts[self@.etags.len() as int],
                ),
                Phase::Completing => r matches TransferStep::Complete(m) && manifest_view(m@)
                    == manifest_of(self@.etags),
                Phase::Aborting => r is Abort,
                Phase::Succeeded => r == TransferStep::Finished(true),
                Phase::Failed => r == TransferStep::Finished(false),
            },
    {
        match self.phase {
            Phase::Fetching => TransferStep::Fetch,
            Phase::Putting => TransferStep::Put,
            Phase::Initiating => TransferStep::Initiate,
            Phase::Uploading => TransferStep::UploadPart(self.parts[self.etags.len()]),
            Phase::Completing => {
                let mut m: Vec<CompletedPart> = Vec::new();
                let mut i: usize = 0;
                while i < self.etags.len()
                    invariant
                        self@.wf(),
                        i <= self.etags@.len(),
                        manifest_view(m@) == manifest_of(self@.etags.take(i as int)),
                    decreases self.etags@.len() - i,
                {
                    let ghost mv = manifest_view(m@);
                    m.push(CompletedPart { number: (i + 1) as u64, etag: self.etags[i].clone() });
                    proof {
                        assert(manifest_view(m@) =~= mv.push(((i + 1) as u64, self.etags@[i as int]@)));
                        assert(self@.etags[i as int] == self.etags@[i as int]@);
                        assert(manifest_view(m@) =~= manifest_of(self@.etags.take(i as int + 1)));
                    }
                    i = i + 1;
                }
                assert(self@.etags.take(self@.etags.len() as int) =~= self@.etags);
                TransferStep::Complete(m)
            },
            Phase::Aborting => TransferStep::Abort,
            Phase::Succeeded => TransferStep::Finished(true),
            Phase::Failed => TransferStep::Finished(false),
        }
    }

    /// Take in what came of the last step. A failure once a multipart
    /// session is open leads to its abort before the transfer fails.
    pub fn apply(&mut self, ev: TransferEvent)
        requires
            old(self)@.wf(),
        ensures
            final(self)@ == old(self)@.after(ev),
            final(self)@.wf(),
    {
        let failed = match ev {
            TransferEvent::Failed => true,
            _ => false,
        };
        match self.phase {
            Phase::Fetching => {
                self.phase = if failed {
                    Phase::Failed
                } else if self.multipart {
                    Phase::Initiating
                } else {
                    Phase::Putting
                };
            },
            Phase::Putting => {
                self.phase = if failed {
                    Phase::Failed
                } else {
                    Phase::Succeeded
                };
            },
            Phase::Initiating => {
                self.phase = if failed {
                    Phase::Failed
                } else {
                    Phase::Uploading
                };
            },
            Phase::Uploading => match ev {
                TransferEvent::PartStored(e) => {
                    let ghost before = self.etags@;
                    self.etags.push(e);
                    proof {
                        assert(self.etags@.map_values(|x: String| x@) =~= before.map_values(
                            |x: String| x@,
                        ).push(self.etags@.last()@));
                    }
                    assert(self@.etags.len() == self.etags@.len());
                    self.phase = if self.etags.len() == self.parts.len() {
                        Phase::Completing
                    } else {
                        Phase::Uploading
                    };
                },
                _ => {
                    self.phase = Phase::Aborting;
                },
            },
            Phase::Completing => {
                self.phase = if failed {
                    Phase::Aborting
                } else {
                    Phase::Succeeded
                };
            },
            Phase::Aborting => {
                self.phase = Phase::Failed;
            },
            _ => {},
        }
    }
}

/// State after answering each step in turn with the given events.
pub open spec fn run(v: TransferView, evs: Seq<TransferEvent>) -> TransferView
    decreases evs.len(),
{
    if evs.len() == 0 {
        v
    } else {
        run(v, evs.drop_last()).after(evs.last())
    }
}

/// ETags carried by part events.
pub open spec fn etags_of(evs: Seq<TransferEvent>) -> Seq<Seq<char>> {
    evs.map_values(
        |e: TransferEvent|
            match e {
                TransferEvent::PartStored(t) => t@,
                _ => Seq::empty(),
            },
    )
}

/// Once a multipart session is open, no answer fails the transfer outright:
/// a failure leads to the abort step, and only the abort leads to failure.
pub proof fn law_open_session_fails_through_abort(v: TransferView, ev: TransferEvent)
    requires
        v.wf(),
        v.phase == Phase::Uploading || v.phase == Phase::Completing,
    ensures
        v.after(ev).phase != Phase::Failed,
        ev is Failed ==> v.after(ev).phase == Phase::Aborting,
        v.after(ev).phase == Phase::Aborting || v.after(ev).phase == Phase::Uploading
            || v.after(ev).phase == Phase::Completing || v.after(ev).phase == Phase::Succeeded,
{
}

/// The abort step, whatever its answer, ends the transfer as failed.
pub proof fn law_abort_ends_in_failure(v: TransferView, ev: TransferEvent)
    requires
        v.phase == Phase::Aborting,
    ensures
        v.after(ev).phase == Phase::Failed,
{
}

proof fn lemma_parts_prefix(v: TransferView, evs: Seq<TransferEvent>, k: int)
    requires
        v.wf(),
        v.phase == Phase::Uploading,
        v.etags.len() == 0,
        evs.len() == v.parts.len(),
        forall|i: int| 0 <= i < evs.len() ==> (#[trigger] evs[i]) is PartStored,
        0 <= k <= evs.len(),
    ensures
        run(v, evs.take(k)) == (TransferView {
            phase: if k == evs.len() {
                Phase::Completing
            } else {
                Phase::Uploading
            },
            etags: etags_of(evs.take(k)),
            ..v
        }),
    decreases k,
{
    if k == 0 {
        assert(etags_of(evs.take(0)) =~= Seq::<Seq<char>>::empty());
        assert(v.etags =~= Seq::<Seq<char>>::empty());
        assert(evs.take(0).len() == 0);
    } else {
        lemma_parts_prefix(v, evs, k - 1);
        assert(evs.take(k).drop_last() =~= evs.take(k - 1));
        assert(evs.take(k).last() == evs[k - 1]);
        assert(evs.take(k).len() == k);
        let prev = run(v, evs.take(k - 1));
        assert(run(v, evs.take(k)) == prev.after(evs[k - 1]));
        assert(evs[k - 1] is PartStored);
        assert(prev.etags.len() == k - 1);
        assert(etags_of(evs.take(k)) =~= etags_of(evs.take(k - 1)).push(etags_of(evs)[k - 1]));
    }
}

/// When every step of a multipart transfer succeeds, the session is opened,
/// each part is stored once in order, the completion names all parts with
/// their ETags numbered from 1, and the transfer succeeds.
pub proof fn law_successful_multipart_run(
    size: u64,
    chunk_size: u64,
    evs: Seq<TransferEvent>,
)
    requires
        chunk_size > 0,
        uses_multipart(size, chunk_size),
        evs.len() == part_plan(size, chunk_size).len(),
        forall|i: int| 0 <= i < evs.len() ==> (#[trigger] evs[i]) is PartStored,
    ensures
        ({
            let opened = initial(size, chunk_size, false).after(TransferEvent::Completed).after(
                TransferEvent::Completed,
            );
            let stored = run(opened, evs);
            &&& opened.phase == Phase::Uploading
            &&& stored.phase == Phase::Completing
            &&& manifest_of(stored.etags) == Seq::new(
                evs.len(),
                |i: int| ((i + 1) as u64, etags_of(evs)[i]),
            )
            &&& stored.after(TransferEvent::Completed).phase == Phase::Succeeded
        }),
{
    crate::multipart::lemma_part_count_at_most_size(size, chunk_size);
    let opened = initial(size, chunk_size, false).after(TransferEvent::Completed).after(
        TransferEvent::Completed,
    );
    assert(opened.wf());
    lemma_parts_prefix(opened, evs, evs.len() as int);
    assert(evs.take(evs.len() as int) =~= evs);
    let stored = run(opened, evs);
    assert(manifest_of(stored.etags) =~= Seq::new(
        evs.len(),
        |i: int| ((i + 1) as u64, etags_of(evs)[i]),
    ));
}

/// When every step of a single-request transfer succeeds, the object is
/// fetched, put once, and the transfer succeeds.
pub proof fn law_successful_single_run(size: u64, chunk_size: u64)
    requires
        chunk_size > 0,
        !uses_multipart(size, chunk_size),
    ensures
        initial(size, chunk_size, false).after(TransferEvent::Completed).phase == Phase::Putting,
        initial(size, chunk_size, false).after(TransferEvent::Completed).after(
            TransferEvent::Completed,
        ).phase == Phase::Succeeded,
{
}

} // verus!
