use vstd::prelude::*;

verus! {

/// Which way the sweeper is moving.
#[derive(Clone, Copy, Debug, PartialEq, Eq, Structural)]
pub enum Direction {
    Up,
    Down,
}

/// The animator's state between two steps.
#[derive(Clone, Copy, Debug, PartialEq, Eq, Structural)]
pub struct AnimationState {
    pub direction: Direction,
    pub position: u32,
}

/// Where every trajectory starts: at the top, moving down.
pub open spec fn initial_state() -> AnimationState {
    AnimationState { direction: Direction::Down, position: 0 }
}

/// Lowest offset the sweeper may take in a frame `height` high.
pub open spec fn lowest_offset(height: u32, sweeper_height: u32) -> int {
    height - sweeper_height
}

/// Displacement per frame: the travel range divided by the frame rate,
/// rounded down.
pub open spec fn delta_of(height: u32, sweeper_height: u32, fps: u16) -> int {
    (height - sweeper_height) / (fps as int)
}

/// One step of the bounce: move by `delta` toward the current direction's
/// bound; on reaching or passing it, stop at the bound and turn round.
pub open spec fn step_state(s: AnimationState, delta: int, bound: int) -> AnimationState {
    match s.direction {
        Direction::Down => if s.position + delta >= bound {
            AnimationState { direction: Direction::Up, position: bound as u32 }
        } else {
            AnimationState { direction: Direction::Down, position: (s.position + delta) as u32 }
        },
        Direction::Up => if s.position <= delta {
            AnimationState { direction: Direction::Down, position: 0 }
        } else {
            AnimationState { direction: Direction::Up, position: (s.position - delta) as u32 }
        },
    }
}

/// The state after `n` steps from the initial one.
pub open spec fn state_at(delta: int, bound: int, n: nat) -> AnimationState
    decreases n,
{
    if n == 0 {
        initial_state()
    } else {
        step_state(state_at(delta, bound, (n - 1) as nat), delta, bound)
    }
}

/// The offset of frame `n` for a frame `height` high, a sweeper
/// `sweeper_height` high and `fps` frames per second.
pub open spec fn offset_at(height: u32, sweeper_height: u32, fps: u16, n: nat) -> u32 {
    state_at(delta_of(height, sweeper_height, fps), lowest_offset(height, sweeper_height), n).position
}

/// The bounce trajectory of a sweeper inside a frame: a triangle wave between
/// offset 0 and `bound`.
pub struct PositionAnimator {
    pub state: AnimationState,
    pub delta: u32,
    pub bound: u32,
}

impl PositionAnimator {
    /// The position never leaves `[0, bound]`.
    pub open spec fn wf(&self) -> bool {
        self.state.position <= self.bound
    }

    /// An animator at offset 0, moving down, for a sweeper `sweeper_height`
    /// high in a frame `height` high shown at `fps` frames per second.
    pub fn new(height: u32, sweeper_height: u32, fps: u16) -> (a: PositionAnimator)
        requires
            sweeper_height <= height,
            fps > 0,
        ensures
            a.wf(),
            a.state == initial_state(),
            a.delta == delta_of(height, sweeper_height, fps),
            a.bound == lowest_offset(height, sweeper_height),
    {
        let bound = height - sweeper_height;
        PositionAnimator { state: AnimationState { direction: Direction::Down, position: 0 }, delta: bound / fps as u32, bound }
    }

    /// The current offset.
    pub fn position(&self) -> (p: u32)
        ensures
            p == self.state.position,
    {
        self.state.position
    }

    /// Advances the trajectory by one frame.
    pub fn step(&mut self)
        requires
            old(self).wf(),
        ensures
            final(self).wf(),
            final(self).delta == old(self).delta,
            final(self).bound == old(self).bound,
            final(self).state == step_state(old(self).state, old(self).delta as int, old(self).bound as int),
    {
        match self.state.direction {
            Direction::Down => {
                let room = self.bound - self.state.position;
                if self.delta >= room {
                    self.state = AnimationState { direction: Direction::Up, position: self.bound };
                } else {
                    self.state = AnimationState { direction: Direction::Down, position: self.state.position + self.delta };
                }
            },
            Direction::Up => {
                let p = self.state.position.saturating_sub(self.delta);
                if p == 0 {
                    self.state = AnimationState { direction: Direction::Down, position: 0 };
                } else {
                    self.state = AnimationState { direction: Direction::Up, position: p };
                }
            },
        }
    }
}

/// The offsets of the first `count` frames: frame 0 takes the initial
/// offset, each later frame the offset after one more step.
pub fn offset_sequence(height: u32, sweeper_height: u32, fps: u16, count: usize) -> (r: Vec<u32>)
    requires
        sweeper_height <= height,
        fps > 0,
    ensures
        r@.len() == count,
        forall|i: int|
            0 <= i < count ==> #[trigger] r@[i] == offset_at(height, sweeper_height, fps, i as nat),
        forall|i: int| 0 <= i < count ==> #[trigger] r@[i] <= lowest_offset(height, sweeper_height),
{
    let mut anim = PositionAnimator::new(height, sweeper_height, fps);
    let mut r: Vec<u32> = Vec::with_capacity(count);
    let mut i: usize = 0;
    while i < count
        invariant
            i <= count,
            r@.len() == i,
            anim.wf(),
            anim.delta == delta_of(height, sweeper_height, fps),
            anim.bound == lowest_offset(height, sweeper_height),
            anim.state == state_at(anim.delta as int, anim.bound as int, i as nat),
            forall|j: int|
                0 <= j < i ==> #[trigger] r@[j] == offset_at(height, sweeper_height, fps, j as nat),
            forall|j: int| 0 <= j < i ==> #[trigger] r@[j] <= lowest_offset(height, sweeper_height),
        decreases count - i,
    {
        r.push(anim.position());
        anim.step();
        i = i + 1;
    }
    r
}

/// Every state reached from the initial one keeps the sweeper inside the
/// frame: its offset lies in `[0, height - sweeper_height]`.
pub proof fn lemma_offset_within_bounds(height: u32, sweeper_height: u32, fps: u16, n: nat)
    requires
        sweeper_height < height,
        fps > 0,
    ensures
        0 <= offset_at(height, sweeper_height, fps, n) <= lowest_offset(height, sweeper_height),
    decreases n,
{
    if n > 0 {
        lemma_offset_within_bounds(height, sweeper_height, fps, (n - 1) as nat);
    }
}

/// Between two consecutive frames the offset never decreases while moving
/// down and never increases while moving up, and the direction turns exactly
/// when the new offset touches the bound it was moving toward.
pub proof fn lemma_trajectory_monotone(height: u32, sweeper_height: u32, fps: u16, n: nat)
    requires
        sweeper_height < height,
        fps > 0,
    ensures
        ({
            let d = delta_of(height, sweeper_height, fps);
            let bound = lowest_offset(height, sweeper_height);
            let a = state_at(d, bound, n);
            let b = state_at(d, bound, n + 1);
            &&& a.direction == Direction::Down ==> a.position <= b.position
            &&& a.direction == Direction::Up ==> b.position <= a.position
            &&& (a.direction != b.direction <==> ((a.direction == Direction::Down && b.position
                == bound) || (a.direction == Direction::Up && b.position == 0)))
        }),
{
    lemma_offset_within_bounds(height, sweeper_height, fps, n);
    let d = delta_of(height, sweeper_height, fps);
    assert(d >= 0);
    assert(state_at(d, lowest_offset(height, sweeper_height), n + 1) == step_state(
        state_at(d, lowest_offset(height, sweeper_height), n),
        d,
        lowest_offset(height, sweeper_height),
    ));
}

} // verus!
