//! What a search asks of its backend, call by call, and where each answer takes it.

use vstd::prelude::*;
use crate::rows::part_of;

verus! {

/// A call that a backend has answered.
pub enum BackendCall {
    /// How many of the frames are blank: answered with a number, or refused.  A call that
    /// is answered with nothing leaves no trace.
    Speculate {
        context: Option<Seq<u32>>,
        frames: Seq<u32>,
        count: usize,
        dim: usize,
        answer: Result<usize, Seq<char>>,
    },
    /// An encoder frame to take in.
    Frame { frame: Seq<u32>, answer: Result<(), Seq<char>> },
    /// A context to take in.
    Context { context: Seq<u32>, answer: Result<(), Seq<char>> },
    /// The best token.
    Next { answer: Result<u32, Seq<char>> },
}

/// The calls that a backend has answered, in order.
pub type CallRecord = Seq<BackendCall>;

/// The frames to search, and how.
pub struct SearchTask {
    pub frames: Seq<u32>,
    pub count: usize,
    pub dim: usize,
    pub blank: u32,
    pub limit: usize,
    pub offset: usize,
}

/// What comes next.
pub enum SearchPhase {
    /// The search stands between two frames, or after the last.
    Boundary,
    /// A frame has to be taken in.
    Frame,
    /// So many tokens have been taken at the frame.
    Symbols { taken: nat },
    /// The search has failed.
    Failed { reason: Seq<char> },
}

/// Where a search stands.
pub struct SearchRun {
    pub frame: int,
    /// The backend holds the context.
    pub valid: bool,
    pub context: Seq<u32>,
    /// The new tokens.
    pub tokens: Seq<u32>,
    /// The frame of each new token.
    pub token_frames: Seq<usize>,
    /// For each new token, how many calls had been answered when it was chosen.
    pub choices: Seq<int>,
    pub phase: SearchPhase,
}

impl SearchRun {
    /// Before the first frame.
    pub open spec fn beginning(context: Seq<u32>) -> SearchRun {
        SearchRun {
            frame: 0,
            valid: false,
            context,
            tokens: Seq::empty(),
            token_frames: Seq::empty(),
            choices: Seq::empty(),
            phase: SearchPhase::Boundary,
        }
    }

    /// The search has failed.
    pub open spec fn failed(self, reason: Seq<char>) -> SearchRun {
        SearchRun { phase: SearchPhase::Failed { reason }, ..self }
    }

    /// The search goes on at the next frame.
    pub open spec fn at_next_frame(self) -> SearchRun {
        SearchRun { frame: self.frame + 1, phase: SearchPhase::Boundary, ..self }
    }

    /// So many tokens have been taken at the frame.
    pub open spec fn having_taken(self, taken: nat, limit: usize) -> SearchRun {
        if taken < limit {
            SearchRun { phase: SearchPhase::Symbols { taken }, ..self }
        } else {
            self.at_next_frame()
        }
    }

    /// After a further token, which was chosen after so many calls.
    pub open spec fn taking(self, token: u32, frame: usize, calls: int) -> SearchRun {
        SearchRun {
            valid: false,
            context: self.context.skip(1).push(token),
            tokens: self.tokens.push(token),
            token_frames: self.token_frames.push(frame),
            choices: self.choices.push(calls),
            ..self
        }
    }

    /// After all frames.
    pub open spec fn finished(self, task: SearchTask) -> bool {
        self.phase is Boundary && self.frame >= task.count
    }
}

/// Where the answer to a call takes a search that stands between two frames.
pub open spec fn after_speculating(
    task: SearchTask,
    run: SearchRun,
    answer: Result<usize, Seq<char>>,
) -> SearchRun {
    match answer {
        Err(reason) => run.failed(reason),
        Ok(blanks) => if blanks > task.count - run.frame {
            run.failed("xasr speculative blank prefix exceeds remaining frames"@)
        } else if run.frame + blanks == task.count {
            SearchRun { frame: run.frame + blanks, valid: true, ..run }
        } else {
            SearchRun {
                frame: run.frame + blanks,
                valid: true,
                phase: SearchPhase::Frame,
                ..run
            }
        },
    }
}

/// Where the answer to a call takes the search, if the call is the one that comes next.
/// So many calls were answered before it.
pub open spec fn stepped(
    task: SearchTask,
    run: SearchRun,
    call: BackendCall,
    before: int,
) -> Option<SearchRun> {
    match call {
        BackendCall::Speculate { context, frames, count, dim, answer } => if run.phase is Boundary
            && run.frame < task.count && context == (if run.valid {
            None
        } else {
            Some(run.context)
        }) && frames == task.frames.skip(run.frame * task.dim) && count == task.count - run.frame
            && dim == task.dim {
            Some(after_speculating(task, run, answer))
        } else {
            None
        },
        BackendCall::Frame { frame, answer } => if (run.phase is Boundary || run.phase is Frame)
            && run.frame < task.count && frame == part_of(
            task.frames,
            task.dim as int,
            run.frame,
        ) {
            match answer {
                Err(reason) => Some(run.failed(reason)),
                Ok(_) => Some(run.having_taken(0, task.limit)),
            }
        } else {
            None
        },
        BackendCall::Context { context, answer } => if run.phase is Symbols && !run.valid && context
            == run.context {
            match answer {
                Err(reason) => Some(run.failed(reason)),
                Ok(_) => Some(SearchRun { valid: true, ..run }),
            }
        } else {
            None
        },
        BackendCall::Next { answer } => if run.phase is Symbols && run.valid {
            match answer {
                Err(reason) => Some(run.failed(reason)),
                Ok(token) => if token == task.blank {
                    Some(run.at_next_frame())
                } else {
                    Some(
                        run.taking(
                            token,
                            (task.offset + run.frame) as usize,
                            before + 1,
                        ).having_taken(run.phase->taken + 1, task.limit),
                    )
                },
            }
        } else {
            None
        },
    }
}

/// Where the answers to all these calls take the search, if the calls are those that the
/// search makes.
pub open spec fn replayed(task: SearchTask, start: SearchRun, calls: Seq<BackendCall>) -> Option<
    SearchRun,
>
    decreases calls.len(),
{
    if calls.len() == 0 {
        Some(start)
    } else {
        match replayed(task, start, calls.drop_last()) {
            None => None,
            Some(run) => stepped(task, run, calls.last(), calls.len() - 1),
        }
    }
}

pub proof fn lemma_replayed_push(
    task: SearchTask,
    start: SearchRun,
    calls: Seq<BackendCall>,
    call: BackendCall,
)
    requires
        replayed(task, start, calls) is Some,
    ensures
        replayed(task, start, calls.push(call)) == stepped(
            task,
            replayed(task, start, calls)->0,
            call,
            calls.len() as int,
        ),
{
    assert(calls.push(call).drop_last() =~= calls);
}

/// The frames that were handed over, in order.
pub open spec fn frames_handed(calls: Seq<BackendCall>) -> Seq<Seq<u32>>
    decreases calls.len(),
{
    if calls.len() == 0 {
        Seq::empty()
    } else {
        let before = frames_handed(calls.drop_last());
        match calls.last() {
            BackendCall::Frame { frame, .. } => before.push(frame),
            _ => before,
        }
    }
}

/// How many contexts were handed over.
pub open spec fn contexts_handed(calls: Seq<BackendCall>) -> nat
    decreases calls.len(),
{
    if calls.len() == 0 {
        0
    } else {
        contexts_handed(calls.drop_last()) + match calls.last() {
            BackendCall::Context { .. } => 1nat,
            BackendCall::Speculate { context, .. } => if context is Some {
                1nat
            } else {
                0nat
            },
            _ => 0nat,
        }
    }
}

/// No frames were found blank beforehand.
pub open spec fn without_speculation(calls: Seq<BackendCall>) -> bool {
    forall|i: int| 0 <= i < calls.len() ==> !(#[trigger] calls[i] is Speculate)
}

/// How far a search without speculation has handed over its frames and contexts.
spec fn disciplined(task: SearchTask, run: SearchRun, calls: Seq<BackendCall>) -> bool {
    let frames = frames_handed(calls);
    let spare: int = if run.valid {
        1
    } else {
        0
    };
    &&& !(run.phase is Frame)
    &&& 0 <= run.frame
    &&& run.phase is Boundary ==> frames.len() == run.frame
    &&& run.phase is Symbols ==> frames.len() == run.frame + 1
    &&& forall|i: int|
        0 <= i < frames.len() ==> #[trigger] frames[i] == part_of(task.frames, task.dim as int, i)
    &&& !(run.phase is Failed) ==> contexts_handed(calls) <= run.tokens.len() + spare
}

proof fn lemma_discipline(task: SearchTask, context: Seq<u32>, calls: Seq<BackendCall>)
    requires
        replayed(task, SearchRun::beginning(context), calls) is Some,
        without_speculation(calls),
    ensures
        disciplined(task, replayed(task, SearchRun::beginning(context), calls)->0, calls),
    decreases calls.len(),
{
    let start = SearchRun::beginning(context);
    if calls.len() > 0 {
        let before = calls.drop_last();
        assert(without_speculation(before)) by {
            assert forall|i: int| 0 <= i < before.len() implies !(#[trigger] before[i]
                is Speculate) by {
                assert(before[i] == calls[i]);
            }
        }
        lemma_discipline(task, context, before);
        let run = replayed(task, start, before)->0;
        let next = replayed(task, start, calls)->0;
        assert(!(calls.last() is Speculate));
        let old_frames = frames_handed(before);
        let frames = frames_handed(calls);
        assert forall|i: int| 0 <= i < frames.len() implies #[trigger] frames[i] == part_of(
            task.frames,
            task.dim as int,
            i,
        ) by {
            if i < old_frames.len() {
                assert(frames[i] == old_frames[i]);
            }
        }
    }
}

/// A search without speculation takes in every frame once and in order, and takes in a
/// context only when there is a new one: once at the start and once for each token.
pub proof fn law_frames_and_contexts_are_handed_once(
    task: SearchTask,
    context: Seq<u32>,
    calls: Seq<BackendCall>,
)
    requires
        replayed(task, SearchRun::beginning(context), calls) is Some,
        replayed(task, SearchRun::beginning(context), calls)->0.finished(task),
        without_speculation(calls),
    ensures
        frames_handed(calls) == Seq::new(
            task.count as nat,
            |i: int| part_of(task.frames, task.dim as int, i),
        ),
        contexts_handed(calls) <= replayed(
            task,
            SearchRun::beginning(context),
            calls,
        )->0.tokens.len() + 1,
{
    lemma_discipline(task, context, calls);
    lemma_frame_bound(task, context, calls);
    assert(frames_handed(calls) =~= Seq::new(
        task.count as nat,
        |i: int| part_of(task.frames, task.dim as int, i),
    ));
}

/// No search goes beyond its frames.
proof fn lemma_frame_bound(task: SearchTask, context: Seq<u32>, calls: Seq<BackendCall>)
    requires
        replayed(task, SearchRun::beginning(context), calls) is Some,
    ensures
        ({
            let run = replayed(task, SearchRun::beginning(context), calls)->0;
            &&& run.phase is Boundary ==> run.frame <= task.count
            &&& run.phase is Frame || run.phase is Symbols ==> run.frame < task.count
        }),
    decreases calls.len(),
{
    if calls.len() > 0 {
        lemma_frame_bound(task, context, calls.drop_last());
    }
}

} // verus!
