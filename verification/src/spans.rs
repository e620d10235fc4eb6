//! How many call frames are open for each account.
use crate::counters::Counters;
use crate::primitives::Address;
use vstd::prelude::*;

verus! {

/// How a call treats its target.
#[derive(Clone, Copy, Debug, PartialEq, Eq, Structural)]
pub enum CallScheme {
    Call,
    CallCode,
    DelegateCall,
    StaticCall,
}

/// What a call frame is entered with, as far as it decides anything here.
#[derive(Clone, Copy, Debug, PartialEq, Eq, Structural)]
pub struct CallInput {
    pub scheme: CallScheme,
    /// The account that the frame acts as.
    pub target_address: Address,
}

/// What a frame is entered with.
#[derive(Clone, Copy, Debug, PartialEq, Eq, Structural)]
pub enum FrameInput {
    Empty,
    Call(CallInput),
    Create,
}

/// The account whose span of open frames a new frame counts to. Frames that act as their
/// parent are not counted, as that is open already; neither are creations.
pub open spec fn span_of(input: FrameInput) -> Option<Address> {
    match input {
        FrameInput::Call(call) => if call.scheme == CallScheme::DelegateCall || call.scheme
            == CallScheme::CallCode {
            None
        } else {
            Some(call.target_address)
        },
        _ => None,
    }
}

/// The account whose span of open frames a new frame counts to, if any.
pub fn span_address(input: &FrameInput) -> (r: Option<Address>)
    ensures
        r == span_of(*input),
{
    match input {
        FrameInput::Call(call) => match call.scheme {
            CallScheme::DelegateCall => None,
            CallScheme::CallCode => None,
            _ => Some(call.target_address),
        },
        _ => None,
    }
}

/// How many frames act as each account, without those that act as their parent.
#[derive(Debug)]
pub struct ProgramSpans {
    counts: Counters<Address>,
}

impl ProgramSpans {
    /// How many frames act as an account.
    pub closed spec fn open_frames(self, address: Address) -> u64 {
        self.counts.count(address)
    }

    /// No frame is open.
    pub fn new() -> (r: ProgramSpans)
        ensures
            forall|address: Address| #[trigger] r.open_frames(address) == 0,
    {
        ProgramSpans { counts: Counters::new() }
    }

    /// How many frames act as an account.
    pub fn get(&self, address: Address) -> (r: u64)
        ensures
            r == self.open_frames(address),
    {
        self.counts.get(address)
    }

    /// Accounts for entering a frame. It is counted only where a frame was pushed: a call
    /// that was answered at once opens none.
    pub fn frame_init(&mut self, input: &FrameInput, pushed: bool)
        requires
            pushed ==> (span_of(*input) matches Some(address) ==> old(self).open_frames(address)
                < u64::MAX),
        ensures
            entered(*old(self), *final(self), *input, pushed),
    {
        if !pushed {
            return;
        }
        if let Some(address) = span_address(input) {
            let count: u64 = self.counts.get(address) + 1;
            self.counts.set(address, count);
        }
    }

    /// Accounts for a result that comes back to the top frame. It closes that frame's span
    /// only where the frame is finished; a result that was given at once belongs to no
    /// frame, and the top one still runs.
    pub fn frame_return_result(&mut self, top: &FrameInput, finished: bool)
        ensures
            left(*old(self), *final(self), *top, finished),
    {
        if !finished {
            return;
        }
        if let Some(address) = span_address(top) {
            let count: u64 = self.counts.get(address);
            if count > 0 {
                self.counts.set(address, count - 1);
            }
        }
    }
}

/// What entering a frame does to the spans: a frame that was pushed counts to its account.
pub open spec fn entered(
    before: ProgramSpans,
    after: ProgramSpans,
    input: FrameInput,
    pushed: bool,
) -> bool {
    forall|address: Address| #[trigger]
        after.open_frames(address) == (if pushed && span_of(input) == Some(address) {
            before.open_frames(address) + 1
        } else {
            before.open_frames(address) as int
        })
}

/// What a result for the top frame does to the spans: a finished frame counts no longer.
pub open spec fn left(
    before: ProgramSpans,
    after: ProgramSpans,
    top: FrameInput,
    finished: bool,
) -> bool {
    forall|address: Address| #[trigger]
        after.open_frames(address) == (if finished && span_of(top) == Some(address)
            && before.open_frames(address) > 0 {
            before.open_frames(address) - 1
        } else {
            before.open_frames(address) as int
        })
}

/// Leaving a frame undoes what entering it did, provided that what ran within it left the
/// spans as it found them.
pub proof fn lemma_frame_restores_spans(
    outer: ProgramSpans,
    within: ProgramSpans,
    done: ProgramSpans,
    after: ProgramSpans,
    input: FrameInput,
    address: Address,
)
    requires
        entered(outer, within, input, true),
        forall|a: Address| #[trigger] done.open_frames(a) == within.open_frames(a),
        left(done, after, input, true),
    ensures
        after.open_frames(address) == outer.open_frames(address),
{
    assert(within.open_frames(address) == done.open_frames(address));
}

/// A call that is answered at once, and whose result goes to the frame that still runs,
/// changes no span.
pub proof fn lemma_answered_call_opens_nothing(
    before: ProgramSpans,
    between: ProgramSpans,
    after: ProgramSpans,
    input: FrameInput,
    top: FrameInput,
    address: Address,
)
    requires
        entered(before, between, input, false),
        left(between, after, top, false),
    ensures
        after.open_frames(address) == before.open_frames(address),
{
    assert(between.open_frames(address) == before.open_frames(address));
}

/// How many frames of a stack act as an account, without those that act as their parent.
pub open spec fn frames_of(frames: Seq<FrameInput>, address: Address) -> nat
    decreases frames.len(),
{
    if frames.len() == 0 {
        0
    } else {
        frames_of(frames.drop_last(), address) + (if span_of(frames.last()) == Some(address) {
            1nat
        } else {
            0nat
        })
    }
}

/// Whether the spans count exactly the frames of a stack.
pub open spec fn counts_stack(spans: ProgramSpans, frames: Seq<FrameInput>) -> bool {
    forall|address: Address| #[trigger] spans.open_frames(address) == frames_of(frames, address)
}

/// Whatever frames are pushed and popped, the spans go on to count exactly those on the stack:
/// where they do before a frame is entered or a result comes back, they do so after it.
pub proof fn lemma_spans_count_the_stack(
    before: ProgramSpans,
    after: ProgramSpans,
    frames: Seq<FrameInput>,
    input: FrameInput,
)
    requires
        counts_stack(before, frames),
    ensures
        entered(before, after, input, true) ==> counts_stack(after, frames.push(input)),
        entered(before, after, input, false) ==> counts_stack(after, frames),
        frames.len() > 0 && left(before, after, frames.last(), true) ==> counts_stack(
            after,
            frames.drop_last(),
        ),
        left(before, after, input, false) ==> counts_stack(after, frames),
{
    assert(frames.push(input).drop_last() =~= frames);
    if entered(before, after, input, true) {
        assert forall|address: Address| #[trigger]
            after.open_frames(address) == frames_of(frames.push(input), address) by {
            assert(before.open_frames(address) == frames_of(frames, address));
        }
    }
    if entered(before, after, input, false) || left(before, after, input, false) {
        assert forall|address: Address| #[trigger]
            after.open_frames(address) == frames_of(frames, address) by {
            assert(before.open_frames(address) == frames_of(frames, address));
        }
    }
    if frames.len() > 0 && left(before, after, frames.last(), true) {
        assert forall|address: Address| #[trigger]
            after.open_frames(address) == frames_of(frames.drop_last(), address) by {
            assert(before.open_frames(address) == frames_of(frames, address));
        }
    }
}

/// Before any frame is entered, the spans count the empty stack.
pub proof fn lemma_spans_start(spans: ProgramSpans)
    requires
        forall|address: Address| #[trigger] spans.open_frames(address) == 0,
    ensures
        counts_stack(spans, Seq::empty()),
{
}

/// Ordinary and static calls count to the account that they call. Calls that act as their caller
/// count to none, nor do creations.
pub proof fn lemma_span_is_that_of_the_target(input: FrameInput, r: Option<Address>)
    requires
        call_ensures(span_address, (&input,), r),
    ensures
        match input {
            FrameInput::Call(call) => match call.scheme {
                CallScheme::Call => r == Some(call.target_address),
                CallScheme::StaticCall => r == Some(call.target_address),
                CallScheme::CallCode => r is None,
                CallScheme::DelegateCall => r is None,
            },
            FrameInput::Create => r is None,
            FrameInput::Empty => r is None,
        },
{
}

/// Entering a frame adds one to the account that it counts to, and its result takes one away again;
/// no other account changes, nor does any where no frame was pushed or none is finished.
pub proof fn lemma_frames_are_counted_one_by_one(
    input: FrameInput,
    at: Option<Address>,
    other: Address,
)
    requires
        call_ensures(span_address, (&input,), at),
    ensures
        forall|spans: &mut ProgramSpans, pushed: bool, r: ()| #[trigger]
            call_ensures(ProgramSpans::frame_init, (spans, &input, pushed), r) ==> final(spans).open_frames(other)
                == spans.open_frames(other) + (if pushed && at == Some(other) {
                1int
            } else {
                0
            }),
        forall|spans: &mut ProgramSpans, finished: bool, r: ()| #[trigger]
            call_ensures(ProgramSpans::frame_return_result, (spans, &input, finished), r) ==> final(spans).open_frames(other)
                == spans.open_frames(other) - (if finished && at == Some(other)
                && spans.open_frames(other) > 0 {
                1int
            } else {
                0
            }),
{
}

} // verus!
