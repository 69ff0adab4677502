use vstd::prelude::*;

verus! {

/// Ticks during which a jump request stays buffered.
pub const MAX_JUMP_TIMER: i32 = 10;

/// Ticks during which the actor still counts as grounded after leaving the ground.
pub const MAX_GROUNDED_TIMER: i32 = 10;

/// Ticks during which the actor still counts as walled after leaving a wall.
pub const MAX_WALLED_TIMER: i32 = 10;

/// Gameplay state of the actor: the jump buffer, the ground and wall
/// forgiveness windows and the wall-jump latch.
#[derive(Clone, Copy, Debug, PartialEq, Eq, Structural)]
pub struct Player {
    pub jump_timer: i32,
    pub grounded_timer: i32,
    /// Signed: its sign is the horizontal direction pointing away from the wall.
    pub walled_timer: i32,
    pub has_wall_jumped: bool,
}

/// What the jump arbitration decided this tick.
#[derive(Clone, Copy, Debug, PartialEq, Eq, Structural)]
pub enum Jump {
    Stay,
    Ground,
    /// A wall jump; `direction` is -1 or 1, the horizontal direction of the jump.
    Wall { direction: i8 },
}

impl Player {
    pub open spec fn wf(self) -> bool {
        &&& 0 <= self.jump_timer <= MAX_JUMP_TIMER
        &&& 0 <= self.grounded_timer <= MAX_GROUNDED_TIMER
        &&& -MAX_WALLED_TIMER <= self.walled_timer <= MAX_WALLED_TIMER
    }

    /// The state after one tick of timer decay.
    pub open spec fn decayed(self) -> Player {
        Player {
            jump_timer: if self.jump_timer > 0 { (self.jump_timer - 1) as i32 } else { self.jump_timer },
            grounded_timer: if self.grounded_timer > 0 {
                (self.grounded_timer - 1) as i32
            } else {
                self.grounded_timer
            },
            walled_timer: if self.walled_timer > 0 {
                (self.walled_timer - 1) as i32
            } else if self.walled_timer < 0 {
                (self.walled_timer + 1) as i32
            } else {
                0
            },
            has_wall_jumped: self.has_wall_jumped,
        }
    }

    /// The state after a collision pass that found ground contact (`grounded`)
    /// and a wall contact on side `wall_side` (0 for none); ground wins.
    pub open spec fn after_contacts(self, grounded: bool, wall_side: int) -> Player {
        if grounded {
            Player {
                grounded_timer: MAX_GROUNDED_TIMER,
                walled_timer: 0,
                has_wall_jumped: false,
                ..self
            }
        } else if wall_side != 0 {
            Player {
                walled_timer: (MAX_WALLED_TIMER * wall_side) as i32,
                has_wall_jumped: false,
                ..self
            }
        } else {
            self
        }
    }

    /// The jump the state calls for.
    pub open spec fn jump_of(self) -> Jump {
        if self.jump_timer <= 0 {
            Jump::Stay
        } else if self.grounded_timer > 0 {
            Jump::Ground
        } else if self.walled_timer != 0 {
            Jump::Wall { direction: if self.walled_timer > 0 { 1i8 } else { -1i8 } }
        } else {
            Jump::Stay
        }
    }

    /// The state after the jump arbitration.
    pub open spec fn after_jump(self) -> Player {
        match self.jump_of() {
            Jump::Stay => self,
            Jump::Ground => Player { jump_timer: 0, grounded_timer: 0, ..self },
            Jump::Wall { .. } => Player {
                jump_timer: 0,
                walled_timer: 0,
                has_wall_jumped: true,
                ..self
            },
        }
    }

    pub fn new() -> (r: Player)
        ensures
            r.wf(),
            r.jump_timer == 0,
            r.grounded_timer == 0,
            r.walled_timer == 0,
            !r.has_wall_jumped,
    {
        Player { jump_timer: 0, grounded_timer: 0, walled_timer: 0, has_wall_jumped: false }
    }

    /// Buffers a jump request.
    pub fn request_jump(&mut self)
        ensures
            *final(self) == (Player { jump_timer: MAX_JUMP_TIMER, ..*old(self) }),
    {
        self.jump_timer = MAX_JUMP_TIMER;
    }

    /// Moves each timer one step towards zero.
    pub fn decay_timers(&mut self)
        ensures
            *final(self) == old(self).decayed(),
            old(self).wf() ==> final(self).wf(),
    {
        if self.jump_timer > 0 {
            self.jump_timer = self.jump_timer - 1;
        }
        if self.grounded_timer > 0 {
            self.grounded_timer = self.grounded_timer - 1;
        }
        if self.walled_timer > 0 {
            self.walled_timer = self.walled_timer - 1;
        } else if self.walled_timer < 0 {
            self.walled_timer = self.walled_timer + 1;
        }
    }

    /// Records what a collision pass found: ground contact, and the side of a
    /// wall contact (-1, 1, or 0 for none).
    pub fn register_contacts(&mut self, grounded: bool, wall_side: i8)
        requires
            -1 <= wall_side <= 1,
        ensures
            *final(self) == old(self).after_contacts(grounded, wall_side as int),
            old(self).wf() ==> final(self).wf(),
    {
        if grounded {
            self.grounded_timer = MAX_GROUNDED_TIMER;
            self.walled_timer = 0;
            self.has_wall_jumped = false;
        } else if wall_side != 0 {
            self.walled_timer = MAX_WALLED_TIMER * (wall_side as i32);
            self.has_wall_jumped = false;
        }
    }

    /// Honours a buffered jump: from the ground first, else from a wall; a
    /// request that matches neither stays pending.
    pub fn arbitrate_jump(&mut self) -> (r: Jump)
        ensures
            r == old(self).jump_of(),
            *final(self) == old(self).after_jump(),
            old(self).wf() ==> final(self).wf(),
    {
        if self.jump_timer > 0 {
            if self.grounded_timer > 0 {
                self.jump_timer = 0;
                self.grounded_timer = 0;
                return Jump::Ground;
            } else if self.walled_timer != 0 {
                let direction: i8 = if self.walled_timer > 0 {
                    1
                } else {
                    -1
                };
                self.jump_timer = 0;
                self.walled_timer = 0;
                self.has_wall_jumped = true;
                return Jump::Wall { direction };
            }
        }
        Jump::Stay
    }
}

/// A collision pass that found ground leaves the actor grounded and never
/// walled, whatever walls it touched in the same pass.
pub proof fn lemma_ground_clears_wall(p: Player, wall_side: int)
    ensures
        p.after_contacts(true, wall_side).grounded_timer == MAX_GROUNDED_TIMER,
        p.after_contacts(true, wall_side).walled_timer == 0,
        !p.after_contacts(true, wall_side).has_wall_jumped,
{
}

/// A buffered jump on the ground jumps and clears both the buffer and the
/// ground window.
pub proof fn lemma_ground_jump(p: Player)
    requires
        p.jump_timer > 0,
        p.grounded_timer > 0,
    ensures
        p.jump_of() == Jump::Ground,
        p.after_jump().jump_timer == 0,
        p.after_jump().grounded_timer == 0,
{
}

/// A buffered jump against a wall, off the ground, jumps away from the wall
/// and latches the wall-jump flag.
pub proof fn lemma_wall_jump(p: Player)
    requires
        p.jump_timer > 0,
        p.grounded_timer == 0,
        p.walled_timer != 0,
    ensures
        p.jump_of() == (Jump::Wall { direction: if p.walled_timer > 0 { 1i8 } else { -1i8 } }),
        p.after_jump().has_wall_jumped,
        p.after_jump().jump_timer == 0,
        p.after_jump().walled_timer == 0,
{
}

} // verus!
