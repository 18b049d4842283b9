//! Delayed auto-shift and auto-repeat of the sideways movement keys.
use vstd::prelude::*;

verus! {

/// The carried auto-repeat remainder never goes below this many microseconds.
pub const CARRY_FLOOR: i64 = -1_000_000_000_000;

/// Times are in microseconds.
pub struct Handling {
    /// Delay from a press to the first repeated move.
    pub das: u32,
    /// Interval between repeated moves.
    pub arr: u32,
    /// Soft drop multiplies gravity by this factor.
    pub sdf: u32,
    pub das_left: i64,
    pub arr_left: i64,
    pub sdf_active: bool,
    pub active_left: bool,
    pub active_right: bool,
    /// -1 for left, 1 for right, 0 for none.
    pub direction: i8,
}

/// The carried remainder, held at the floor.
pub open spec fn floor_carry(v: int) -> int {
    if v < CARRY_FLOOR {
        CARRY_FLOOR as int
    } else {
        v
    }
}

impl Handling {
    pub open spec fn wf(&self) -> bool {
        &&& 0 <= self.das_left <= self.das
        &&& CARRY_FLOOR <= self.arr_left <= self.arr
        &&& -1 <= self.direction <= 1
    }

    /// The state after a tick of `delta` microseconds.
    pub open spec fn ticked(self, delta: int) -> Handling {
        if !self.active_left && !self.active_right {
            self
        } else if self.das_left > 0 {
            if self.das_left - delta <= 0 {
                Handling {
                    arr_left: floor_carry(self.arr_left + (self.das_left - delta)) as i64,
                    das_left: 0,
                    ..self
                }
            } else {
                Handling { das_left: (self.das_left - delta) as i64, ..self }
            }
        } else if floor_carry(self.arr_left - delta) <= 0 {
            Handling { arr_left: (floor_carry(self.arr_left - delta) + self.arr) as i64, ..self }
        } else {
            Handling { arr_left: floor_carry(self.arr_left - delta) as i64, ..self }
        }
    }

    /// The move that a tick of `delta` microseconds asks for.
    pub open spec fn pulse(self, delta: int) -> i8 {
        if !self.active_left && !self.active_right {
            0
        } else if self.das_left > 0 {
            if self.das_left - delta <= 0 {
                self.direction
            } else {
                0
            }
        } else if floor_carry(self.arr_left - delta) <= 0 {
            self.direction
        } else {
            0
        }
    }

    /// No key held, and both countdowns full.
    pub open spec fn create_spec(das: u32, arr: u32, sdf: u32) -> Handling {
        Handling {
            das,
            arr,
            sdf,
            das_left: das as i64,
            arr_left: arr as i64,
            sdf_active: false,
            active_left: false,
            active_right: false,
            direction: 0,
        }
    }

    pub fn create(das: u32, arr: u32, sdf: u32) -> (r: Handling)
        ensures
            r.wf(),
            r == Handling::create_spec(das, arr, sdf),
    {
        Handling {
            das,
            arr,
            sdf,
            das_left: das as i64,
            arr_left: arr as i64,
            sdf_active: false,
            active_left: false,
            active_right: false,
            direction: 0,
        }
    }

    /// The state after `left` and/or `right` went down.
    pub open spec fn pressed(self, left: bool, right: bool) -> Handling {
        Handling {
            active_left: self.active_left || left,
            active_right: self.active_right || right,
            direction: if right {
                1i8
            } else if left {
                -1i8
            } else {
                self.direction
            },
            das_left: self.das as i64,
            ..self
        }
    }

    /// The state after `left` and/or `right` went up.
    pub open spec fn released(self, left: bool, right: bool) -> Handling {
        let active_left = self.active_left && !left;
        let active_right = self.active_right && !right;
        if !active_left && !active_right {
            Handling {
                active_left,
                active_right,
                direction: 0,
                das_left: self.das as i64,
                arr_left: self.arr as i64,
                ..self
            }
        } else {
            Handling {
                active_left,
                active_right,
                direction: if active_right {
                    1i8
                } else {
                    -1i8
                },
                ..self
            }
        }
    }

    /// A movement key went down: the side pressed last decides the direction,
    /// and the auto-shift delay starts again.
    pub fn movement_key_pressed(&mut self, left: bool, right: bool)
        requires
            old(self).wf(),
        ensures
            final(self).wf(),
            *final(self) == old(self).pressed(left, right),
    {
        if left {
            self.active_left = left;
            self.direction = -1;
        }
        if right {
            self.active_right = right;
            self.direction = 1;
        }
        self.das_left = self.das as i64;
    }

    /// A movement key went up: the side still held decides the direction; with
    /// neither held, both countdowns start again.
    pub fn movement_key_released(&mut self, left: bool, right: bool)
        requires
            old(self).wf(),
        ensures
            final(self).wf(),
            *final(self) == old(self).released(left, right),
    {
        if left {
            self.active_left = !left;
        }
        if right {
            self.active_right = !right;
        }
        if self.active_left {
            self.direction = -1;
        }
        if self.active_right {
            self.direction = 1;
        }
        if !self.active_left && !self.active_right {
            self.arr_left = self.arr as i64;
            self.das_left = self.das as i64;
            self.direction = 0;
        }
    }

    /// Advances the countdowns by `delta` microseconds and returns the move
    /// that is due: the held direction when the delay or an interval ran out,
    /// else 0. What is left over carries into the next interval.
    pub fn movement_tick(&mut self, delta: u32) -> (r: i8)
        requires
            old(self).wf(),
        ensures
            final(self).wf(),
            *final(self) == old(self).ticked(delta as int),
            r == old(self).pulse(delta as int),
    {
        if !self.active_left && !self.active_right {
            return 0;
        }
        if self.das_left > 0 {
            self.das_left = self.das_left - delta as i64;
            if self.das_left <= 0 {
                let carried: i64 = self.arr_left + self.das_left;
                self.arr_left = if carried < CARRY_FLOOR {
                    CARRY_FLOOR
                } else {
                    carried
                };
                self.das_left = 0;
                self.direction
            } else {
                0
            }
        } else {
            let left: i64 = self.arr_left - delta as i64;
            self.arr_left = if left < CARRY_FLOOR {
                CARRY_FLOOR
            } else {
                left
            };
            if self.arr_left <= 0 {
                self.arr_left = self.arr_left + self.arr as i64;
                self.direction
            } else {
                0
            }
        }
    }
}

} // verus!
