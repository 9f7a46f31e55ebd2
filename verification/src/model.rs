use vstd::prelude::*;
use crate::cycler::{Message, message_for, message_text, next_index, MESSAGE_COUNT, MESSAGE_DELAY};
use crate::trail::{
    bounded_after_step, Kazaguruma, Rect, force_outcome, frame_stepped, freshly_seeded, rect_ok,
    random_seed, seed_in, step_safe, trail_color, random_force,
};
use crate::rng::random_in;
use crate::vec2::Vec2;

verus! {

/// Cap on the number of live trail entities.
pub const ENTITY_CAP: usize = 5;

/// Frames at or past this index are no longer captured to disk.
pub const SCREENSHOT_LIMIT: u64 = 239;

/// Whether the frame at this index should still be captured.
pub fn capture_wanted(frame: u64) -> (b: bool)
    ensures
        b == (frame < SCREENSHOT_LIMIT),
{
    frame < SCREENSHOT_LIMIT
}

/// A new entity is spawned on frame indices divisible by this.
pub const SPAWN_INTERVAL: u64 = 10;

/// One entity's whole per-frame advance under some admissible random
/// draw: an impulse outcome, a seed point inside the viewport's inset
/// window, and a reseed angle below 360.
pub open spec fn frame_advanced(pre: Kazaguruma, post: Kazaguruma, r: Rect) -> bool {
    exists|f: Vec2, seed: Vec2, sa: u32|
        #[trigger] frame_stepped(pre, post, f, seed, sa) && force_outcome(f) && seed_in(seed, r)
            && sa < 360
}

/// The whole simulation state: the current message with its cycling
/// counters, and the live trail entities.
#[derive(Debug)]
pub struct Model {
    pub message: Message,
    pub count: usize,
    pub time: u64,
    pub kazaguruma_list: Vec<Kazaguruma>,
}

impl Model {
    /// The standing invariant: the message matches the cycle position,
    /// the population stays between one and the cap, and every entity is
    /// well formed, owns at least one point and keeps the fixed color.
    pub open spec fn wf(self) -> bool {
        &&& self.count < MESSAGE_COUNT
        &&& self.message.text@ == message_text(self.count as int)
        &&& 1 <= self.kazaguruma_list@.len() <= ENTITY_CAP
        &&& forall|i: int|
            0 <= i < self.kazaguruma_list@.len() ==> (#[trigger] self.kazaguruma_list@[i]).wf()
        &&& forall|i: int|
            0 <= i < self.kazaguruma_list@.len() ==> (#[trigger] self.kazaguruma_list@[i]).points@.len() > 0
        &&& forall|i: int|
            0 <= i < self.kazaguruma_list@.len() ==> (#[trigger] self.kazaguruma_list@[i]).color
                == trail_color()
    }

    /// Every entity is within machine bounds for one more step.
    pub open spec fn steps_safe(self) -> bool {
        forall|i: int|
            0 <= i < self.kazaguruma_list@.len() ==> step_safe(
                #[trigger] self.kazaguruma_list@[i],
            )
    }

    /// The initial state: the first message, counters at zero, and one
    /// randomly seeded entity.
    pub fn new(win_rect: Rect) -> (m: Model)
        requires
            rect_ok(win_rect),
        ensures
            m.wf(),
            m.steps_safe(),
            m.count == 0,
            m.time == 0,
            m.message.text@ == message_text(0),
            m.kazaguruma_list@.len() == 1,
            freshly_seeded(m.kazaguruma_list@[0], win_rect),
    {
        let message = message_for(0);
        let mut kazaguruma_list: Vec<Kazaguruma> = Vec::new();
        kazaguruma_list.push(Kazaguruma::new(win_rect));
        Model { message, count: 0, time: 0, kazaguruma_list }
    }

    /// One frame of the simulation: advance the message cycle exactly when
    /// the fixed delay since the last transition has elapsed, spawn one
    /// entity while the population is below the cap on frames divisible by
    /// the spawn interval, then advance every entity by one frame step.
    pub fn update(&mut self, frame: u64, win_rect: Rect)
        requires
            old(self).wf(),
            old(self).steps_safe(),
            rect_ok(win_rect),
            old(self).time <= u64::MAX - MESSAGE_DELAY,
        ensures
            final(self).wf(),
            old(self).time + MESSAGE_DELAY == frame ==> final(self).count == next_index(
                old(self).count as int,
            ) && final(self).time == frame,
            old(self).time + MESSAGE_DELAY != frame ==> final(self).count == old(self).count
                && final(self).time == old(self).time && final(self).message.text@ == old(
                self,
            ).message.text@,
            final(self).message.text@ == message_text(final(self).count as int),
            final(self).kazaguruma_list@.len() == old(self).kazaguruma_list@.len() + (
            if old(self).kazaguruma_list@.len() < ENTITY_CAP && frame % SPAWN_INTERVAL == 0 {
                1int
            } else {
                0int
            }),
            forall|i: int|
                0 <= i < old(self).kazaguruma_list@.len() ==> frame_advanced(
                    old(self).kazaguruma_list@[i],
                    #[trigger] final(self).kazaguruma_list@[i],
                    win_rect,
                ),
            forall|i: int|
                0 <= i < old(self).kazaguruma_list@.len() ==> bounded_after_step(
                    old(self).kazaguruma_list@[i],
                    #[trigger] final(self).kazaguruma_list@[i],
                ),
            (old(self).kazaguruma_list@.len() < ENTITY_CAP && frame % SPAWN_INTERVAL == 0)
                ==> exists|k0: Kazaguruma|
                #[trigger] freshly_seeded(k0, win_rect) && frame_advanced(
                    k0,
                    final(self).kazaguruma_list@[old(self).kazaguruma_list@.len() as int],
                    win_rect,
                ) && bounded_after_step(
                    k0,
                    final(self).kazaguruma_list@[old(self).kazaguruma_list@.len() as int],
                ),
    {
        let time = frame;
        if self.time + MESSAGE_DELAY == time {
            if self.count == 0 {
                self.message = message_for(1);
                self.time = time;
                self.count = 1;
            } else if self.count == 1 {
                self.message = message_for(2);
                self.time = time;
                self.count = 2;
            } else {
                self.message = message_for(0);
                self.time = time;
                self.count = 0;
            }
        }
        if self.kazaguruma_list.len() < ENTITY_CAP && time % SPAWN_INTERVAL == 0 {
            let kazaguruma = Kazaguruma::new(win_rect);
            self.kazaguruma_list.push(kazaguruma);
        }
        let ghost base = self.kazaguruma_list@;
        let ghost text0 = self.message.text@;
        let ghost c0 = self.count;
        let ghost t0 = self.time;
        let mut i: usize = 0;
        while i < self.kazaguruma_list.len()
            invariant
                self.message.text@ == text0,
                self.count == c0,
                self.time == t0,
                i <= base.len(),
                self.kazaguruma_list@.len() == base.len(),
                1 <= base.len() <= ENTITY_CAP,
                rect_ok(win_rect),
                forall|j: int| 0 <= j < base.len() ==> (#[trigger] base[j]).wf(),
                forall|j: int| 0 <= j < base.len() ==> step_safe(#[trigger] base[j]),
                forall|j: int| 0 <= j < base.len() ==> (#[trigger] base[j]).points@.len() > 0,
                forall|j: int| 0 <= j < base.len() ==> (#[trigger] base[j]).color == trail_color(),
                forall|j: int|
                    i <= j < base.len() ==> #[trigger] self.kazaguruma_list@[j] == base[j],
                forall|j: int|
                    0 <= j < i ==> frame_advanced(
                        base[j],
                        #[trigger] self.kazaguruma_list@[j],
                        win_rect,
                    ),
                forall|j: int|
                    0 <= j < i ==> bounded_after_step(base[j], #[trigger] self.kazaguruma_list@[j]),
                forall|j: int|
                    0 <= j < i ==> (#[trigger] self.kazaguruma_list@[j]).wf(),
                forall|j: int|
                    0 <= j < i ==> (#[trigger] self.kazaguruma_list@[j]).points@.len() > 0,
                forall|j: int|
                    0 <= j < i ==> (#[trigger] self.kazaguruma_list@[j]).color == base[j].color,
            decreases base.len() - i,
        {
            let f = random_force();
            let seed = random_seed(win_rect);
            let sa = random_in(0, 360);
            let ghost pre = self.kazaguruma_list@[i as int];
            self.kazaguruma_list[i].frame_update_with(f, seed, sa as u32);
            proof {
                let post = self.kazaguruma_list@[i as int];
                assert(frame_stepped(pre, post, f, seed, sa as u32));
                assert(frame_advanced(pre, post, win_rect));
                assert(bounded_after_step(pre, post));
                if pre.points@.len() > 0 {
                    crate::trail::lemma_no_empty_after_step(
                        crate::trail::with_angle(pre),
                        post,
                        f,
                        seed,
                        sa as u32,
                    );
                }
            }
            i = i + 1;
        }
    }
}

/// Run-level message cadence, as the induction step over frames: if the
/// counters enter a frame in canonical form — the last transition at the
/// latest delay multiple before the frame, the cycle position that many
/// transitions around — then one update, whose transition behaviour is
/// what `Model::update` ensures, leaves them in canonical form for that
/// frame. With `Model::new` (time 0, count 0) as the base, induction over
/// the frames gives transitions exactly at every delay multiple and the
/// cycle position `(frame / delay) % 3`, so the cycle repeats with period
/// three delays.
pub proof fn lemma_run_level_cadence(
    pre_time: u64,
    pre_count: int,
    post_time: u64,
    post_count: int,
    frame: u64,
)
    requires
        1 <= frame,
        pre_time as int == MESSAGE_DELAY * (((frame as int) - 1) / (MESSAGE_DELAY as int)),
        pre_count == (((frame as int) - 1) / (MESSAGE_DELAY as int)) % 3,
        pre_time as int + MESSAGE_DELAY == frame as int ==> post_count == next_index(pre_count)
            && post_time == frame,
        pre_time as int + MESSAGE_DELAY != frame as int ==> post_count == pre_count && post_time
            == pre_time,
    ensures
        post_time as int == MESSAGE_DELAY * ((frame as int) / (MESSAGE_DELAY as int)),
        post_count == ((frame as int) / (MESSAGE_DELAY as int)) % 3,
{
    let d = MESSAGE_DELAY as int;
    let n = frame as int;
    let q = (n - 1) / d;
    vstd::arithmetic::div_mod::lemma_fundamental_div_mod(n - 1, d);
    vstd::arithmetic::div_mod::lemma_mod_pos_bound(n - 1, d);
    let r = (n - 1) % d;
    vstd::arithmetic::div_mod::lemma_fundamental_div_mod(q, 3);
    vstd::arithmetic::div_mod::lemma_mod_pos_bound(q, 3);
    let t = q / 3;
    let c = q % 3;
    if pre_time as int + d == n {
        assert(n == d * (q + 1));
        vstd::arithmetic::div_mod::lemma_fundamental_div_mod_converse(n, d, q + 1, 0);
        if c < 2 {
            vstd::arithmetic::div_mod::lemma_fundamental_div_mod_converse(q + 1, 3, t, c + 1);
        } else {
            assert(q + 1 == (t + 1) * 3 + 0);
            vstd::arithmetic::div_mod::lemma_fundamental_div_mod_converse(q + 1, 3, t + 1, 0);
        }
    } else {
        assert(d * q <= n - 1 < d * (q + 1));
        assert(n != d * (q + 1));
        assert(n == q * d + (r + 1));
        vstd::arithmetic::div_mod::lemma_fundamental_div_mod_converse(n, d, q, r + 1);
    }
}

} // verus!
