//! Ownership of the renderer's band buffers between rasterization and the
//! display transfer that reads them.
use vstd::prelude::*;

verus! {

/// Why an ownership transition was refused.
#[derive(Clone, Copy, Debug, PartialEq, Eq, Structural)]
pub enum OwnershipError {
    InvalidBuffer,
    AlreadyRendering,
    TransferInFlight,
    NotRendering,
    NotInFlight,
}

/// Abstract state of the buffers: at most one is being rendered, and each
/// may independently be in flight to the display.
pub struct OwnershipState {
    pub rendering: Option<int>,
    pub inflight: Seq<bool>,
}

/// The state invariant for `n` buffers: one flag per buffer, and the buffer
/// being rendered is a valid buffer that the display is not reading.
pub open spec fn state_wf(s: OwnershipState, n: nat) -> bool {
    &&& s.inflight.len() == n
    &&& match s.rendering {
        Some(i) => 0 <= i < n && !s.inflight[i],
        None => true,
    }
}

/// `begin_render(i)`: the renderer takes buffer `i`.
pub open spec fn step_begin_render(s: OwnershipState, n: nat, i: int) -> (OwnershipState, Result<(), OwnershipError>) {
    if !(0 <= i < n) {
        (s, Err(OwnershipError::InvalidBuffer))
    } else if s.rendering is Some {
        (s, Err(OwnershipError::AlreadyRendering))
    } else if s.inflight[i] {
        (s, Err(OwnershipError::TransferInFlight))
    } else {
        (OwnershipState { rendering: Some(i), inflight: s.inflight }, Ok(()))
    }
}

/// `submit(i)`: the rendered buffer `i` is handed to the display transfer.
pub open spec fn step_submit(s: OwnershipState, n: nat, i: int) -> (OwnershipState, Result<(), OwnershipError>) {
    if !(0 <= i < n) {
        (s, Err(OwnershipError::InvalidBuffer))
    } else if s.rendering != Some(i) {
        (s, Err(OwnershipError::NotRendering))
    } else {
        (OwnershipState { rendering: None, inflight: s.inflight.update(i, true) }, Ok(()))
    }
}

/// `submission_failed(i)`: the display never started reading buffer `i`.
pub open spec fn step_submission_failed(s: OwnershipState, n: nat, i: int) -> OwnershipState {
    if 0 <= i < n {
        OwnershipState { rendering: s.rendering, inflight: s.inflight.update(i, false) }
    } else {
        s
    }
}

/// `complete(i)`: the display finished reading buffer `i`.
pub open spec fn step_complete(s: OwnershipState, n: nat, i: int) -> (OwnershipState, Result<(), OwnershipError>) {
    if !(0 <= i < n) {
        (s, Err(OwnershipError::InvalidBuffer))
    } else if !s.inflight[i] {
        (s, Err(OwnershipError::NotInFlight))
    } else {
        (OwnershipState { rendering: s.rendering, inflight: s.inflight.update(i, false) }, Ok(()))
    }
}

/// Tracks which band buffer the renderer writes and which ones the display
/// transfer still reads.
pub struct BandOwnership<const N: usize> {
    rendering: Option<usize>,
    inflight: Vec<bool>,
}

impl<const N: usize> BandOwnership<N> {
    /// The abstract state.
    pub closed spec fn state(&self) -> OwnershipState {
        OwnershipState {
            rendering: match self.rendering {
                Some(i) => Some(i as int),
                None => None,
            },
            inflight: self.inflight@,
        }
    }

    /// Well-formedness of the concrete value.
    pub open spec fn wf(&self) -> bool {
        state_wf(self.state(), N as nat)
    }

    /// No buffer is rendering and none is in flight.
    pub fn new() -> (result: Self)
        ensures
            result.wf(),
            result.state().rendering is None,
            result.state().inflight == Seq::new(N as nat, |i: int| false),
    {
        let mut inflight: Vec<bool> = Vec::new();
        let mut i: usize = 0;
        while i < N
            invariant
                i <= N,
                inflight@ == Seq::new(i as nat, |k: int| false),
            decreases N - i,
        {
            inflight.push(false);
            i = i + 1;
        }
        BandOwnership { rendering: None, inflight }
    }

    /// Takes buffer `index` for rendering.
    pub fn begin_render(&mut self, index: usize) -> (result: Result<(), OwnershipError>)
        requires
            old(self).wf(),
        ensures
            final(self).wf(),
            (final(self).state(), result) == step_begin_render(old(self).state(), N as nat, index as int),
    {
        if index >= N {
            return Err(OwnershipError::InvalidBuffer);
        }
        if self.rendering.is_some() {
            return Err(OwnershipError::AlreadyRendering);
        }
        if self.inflight[index] {
            return Err(OwnershipError::TransferInFlight);
        }
        self.rendering = Some(index);
        Ok(())
    }

    /// Hands the rendered buffer `index` to the display transfer.
    pub fn submit(&mut self, index: usize) -> (result: Result<(), OwnershipError>)
        requires
            old(self).wf(),
        ensures
            final(self).wf(),
            (final(self).state(), result) == step_submit(old(self).state(), N as nat, index as int),
    {
        if index >= N {
            return Err(OwnershipError::InvalidBuffer);
        }
        let rendering_this = match self.rendering {
            Some(current) => current == index,
            None => false,
        };
        if !rendering_this {
            return Err(OwnershipError::NotRendering);
        }
        self.rendering = None;
        self.inflight.set(index, true);
        Ok(())
    }

    /// Returns buffer `index` after the display refused the submission; an
    /// out-of-range index is ignored.
    pub fn submission_failed(&mut self, index: usize)
        requires
            old(self).wf(),
        ensures
            final(self).wf(),
            final(self).state() == step_submission_failed(old(self).state(), N as nat, index as int),
    {
        if index < N {
            self.inflight.set(index, false);
        }
    }

    /// Records that the display finished reading buffer `index`.
    pub fn complete(&mut self, index: usize) -> (result: Result<(), OwnershipError>)
        requires
            old(self).wf(),
        ensures
            final(self).wf(),
            (final(self).state(), result) == step_complete(old(self).state(), N as nat, index as int),
    {
        if index >= N {
            return Err(OwnershipError::InvalidBuffer);
        }
        if !self.inflight[index] {
            return Err(OwnershipError::NotInFlight);
        }
        self.inflight.set(index, false);
        Ok(())
    }

    /// Whether the display still reads buffer `index`.
    pub fn is_inflight(&self, index: usize) -> (result: bool)
        requires
            self.wf(),
        ensures
            result == (index < N && self.state().inflight[index as int]),
    {
        index < N && self.inflight[index]
    }
}

/// Every transition keeps the invariant: the buffer being rendered is never
/// one that the display is reading, so rendering and transfer never overlap.
pub proof fn lemma_transitions_keep_render_and_transfer_apart(s: OwnershipState, n: nat, i: int)
    requires
        state_wf(s, n),
    ensures
        state_wf(step_begin_render(s, n, i).0, n),
        state_wf(step_submit(s, n, i).0, n),
        state_wf(step_submission_failed(s, n, i), n),
        state_wf(step_complete(s, n, i).0, n),
{
}

/// A submitted buffer cannot be rendered again until its transfer completes:
/// right after `submit(i)` succeeds, `begin_render(i)` is refused with
/// `TransferInFlight`, and a transition on another buffer `j` never clears
/// the flag of `i`.
pub proof fn lemma_transfer_completes_before_rerender(s: OwnershipState, n: nat, i: int, j: int)
    requires
        state_wf(s, n),
        step_submit(s, n, i).1 is Ok,
        j != i,
    ensures
        step_begin_render(step_submit(s, n, i).0, n, i).1 == Err::<(), OwnershipError>(OwnershipError::TransferInFlight),
        ({
            let t = step_submit(s, n, i).0;
            &&& step_begin_render(t, n, j).0.inflight[i]
            &&& step_submit(t, n, j).0.inflight[i]
            &&& step_complete(t, n, j).0.inflight[i]
            &&& step_submission_failed(t, n, j).inflight[i]
        }),
{
}

/// Completing the transfer of a buffer that nothing renders makes it
/// available to the renderer again.
pub proof fn lemma_completed_buffer_can_render(s: OwnershipState, n: nat, i: int)
    requires
        state_wf(s, n),
        s.rendering is None,
        step_complete(s, n, i).1 is Ok,
    ensures
        step_begin_render(step_complete(s, n, i).0, n, i).1 is Ok,
{
}

/// Only one buffer renders at a time: while one renders, `begin_render` of
/// any buffer in range is refused with `AlreadyRendering`.
pub proof fn lemma_single_renderer(s: OwnershipState, n: nat, i: int)
    requires
        state_wf(s, n),
        s.rendering is Some,
        0 <= i < n,
    ensures
        step_begin_render(s, n, i) == (s, Err::<(), OwnershipError>(OwnershipError::AlreadyRendering)),
{
}

} // verus!
