use vstd::prelude::*;

use crate::error::Chip8Error;
use crate::model::{
    draw_origin, sprite_covers, well_sized, xor_sprite, opcode_at, pc_after, sets_timer, skip_condition, step_spec, transfers_control, Chip8State,
};
use crate::opcode::decoded;

verus! {

/// An instruction that succeeds and is neither a skip nor one that sets `pc`
/// itself (return, jump, call, jump with offset, wait for a key) moves `pc`
/// on by exactly two bytes.
pub proof fn lemma_plain_step_advances_pc(s: Chip8State, random: u8)
    requires
        skip_condition(s, opcode_at(s)) is None,
        !transfers_control(opcode_at(s)),
        step_spec(s, random).1 is Ok,
    ensures
        step_spec(s, random).0.pc == pc_after(s.pc, 2),
        s.pc + 2 <= 0xFFFF ==> step_spec(s, random).0.pc == s.pc + 2,
{
}

/// A skip instruction moves `pc` on by four bytes when its condition holds
/// and by two when it does not.
pub proof fn lemma_skip_step_advances_pc(s: Chip8State, random: u8)
    requires
        skip_condition(s, opcode_at(s)) is Some,
    ensures
        ({
            let cond = skip_condition(s, opcode_at(s))->0;
            let pc = step_spec(s, random).0.pc;
            &&& step_spec(s, random).1 is Ok
            &&& pc == pc_after(s.pc, if cond { 4 } else { 2 })
            &&& s.pc + 4 <= 0xFFFF ==> (pc == s.pc + 4 <==> cond) && (pc == s.pc + 2 <==> !cond)
        }),
{
}

/// A call followed by a return, with a stack that had room, comes back to
/// the instruction after the call: the call pushes that address and jumps
/// to `nnn`, the return pops it into `pc` and leaves the stack as before.
pub proof fn lemma_call_then_return(s: Chip8State, r1: u8, r2: u8)
    requires
        decoded(opcode_at(s)).high == 0x2,
        s.stack.len() < 16,
        opcode_at(step_spec(s, r1).0) == 0x00EE,
    ensures
        ({
            let (s1, res1) = step_spec(s, r1);
            let (s2, res2) = step_spec(s1, r2);
            &&& res1 is Ok
            &&& s1.pc == decoded(opcode_at(s)).nnn
            &&& s1.stack == s.stack.push(pc_after(s.pc, 2))
            &&& res2 is Ok
            &&& s2.pc == pc_after(s.pc, 2)
            &&& s2.stack == s.stack
        }),
{
    let s1 = step_spec(s, r1).0;
    assert(s1.stack.drop_last() =~= s.stack);
}

/// A call with all sixteen stack slots in use fails with `StackOverflow` and
/// changes nothing.
pub proof fn lemma_call_on_full_stack(s: Chip8State, random: u8)
    requires
        decoded(opcode_at(s)).high == 0x2,
        s.stack.len() >= 16,
    ensures
        step_spec(s, random) == (s, Err::<(), Chip8Error>(Chip8Error::StackOverflow)),
{
}

/// Over a run of successful steps none of which writes a timer, each timer
/// drops by one per step until it reaches zero, and never goes below it.
///
/// `states[k + 1]` is the state after step `k`, taken with `randoms[k]`.
pub proof fn lemma_timers_count_down(states: Seq<Chip8State>, randoms: Seq<u8>)
    requires
        states.len() == randoms.len() + 1,
        forall|k: int|
            0 <= k < randoms.len() ==> #[trigger] step_spec(states[k], randoms[k]) == (
            states[k + 1],
            Ok::<(), Chip8Error>(()),
        ),
        forall|k: int| 0 <= k < randoms.len() ==> !sets_timer(#[trigger] opcode_at(states[k])),
    ensures
        states.last().delay_timer == if states[0].delay_timer >= randoms.len() {
            states[0].delay_timer - randoms.len()
        } else {
            0
        },
        states.last().sound_timer == if states[0].sound_timer >= randoms.len() {
            states[0].sound_timer - randoms.len()
        } else {
            0
        },
    decreases randoms.len(),
{
    let n = randoms.len() as int;
    if n > 0 {
        let front = states.subrange(0, n);
        let rs = randoms.subrange(0, n - 1);
        assert forall|k: int| 0 <= k < rs.len() implies #[trigger] step_spec(front[k], rs[k]) == (
            front[k + 1],
            Ok::<(), Chip8Error>(()),
        ) by {
            assert(step_spec(states[k], randoms[k]) == (states[k + 1], Ok::<(), Chip8Error>(())));
        }
        assert forall|k: int| 0 <= k < rs.len() implies !sets_timer(#[trigger] opcode_at(front[k])) by {
            assert(!sets_timer(opcode_at(states[k])));
        }
        lemma_timers_count_down(front, rs);
        lemma_step_ticks_timers(states[n - 1], randoms[n - 1]);
    }
}

/// A successful step that writes no timer lowers each timer by one, unless
/// it is zero.
pub proof fn lemma_step_ticks_timers(s: Chip8State, random: u8)
    requires
        step_spec(s, random).1 is Ok,
        !sets_timer(opcode_at(s)),
    ensures
        step_spec(s, random).0.delay_timer == if s.delay_timer > 0 { s.delay_timer - 1 } else { 0 },
        step_spec(s, random).0.sound_timer == if s.sound_timer > 0 { s.sound_timer - 1 } else { 0 },
{
}

/// Drawing the same sprite twice at the same place gives back the
/// framebuffer as it was: the first draw flips every pixel the sprite covers
/// and the second flips them back.
///
/// The second draw sets VF = 1 exactly when some covered pixel was unset
/// before the first draw, and so set before the second: on an area where
/// every covered pixel starts unset, VF = 1 whenever the sprite covers any
/// pixel at all.
pub proof fn lemma_draw_twice(s: Chip8State, r1: u8, r2: u8)
    requires
        well_sized(s),
        decoded(opcode_at(s)).high == 0xD,
        decoded(opcode_at(step_spec(s, r1).0)).high == 0xD,
        decoded(opcode_at(step_spec(s, r1).0)).n == decoded(opcode_at(s)).n,
        draw_origin(step_spec(s, r1).0, opcode_at(step_spec(s, r1).0)) == draw_origin(
            s,
            opcode_at(s),
        ),
    ensures
        ({
            let s1 = step_spec(s, r1).0;
            let s2 = step_spec(s1, r2).0;
            let (vx, vy) = draw_origin(s, opcode_at(s));
            let k = decoded(opcode_at(s)).n * 8;
            &&& forall|p: int|
                sprite_covers(s.memory, s.i, vx, vy, k, p) ==> s1.display[p] == !s.display[p]
            &&& s2.display == s.display
            &&& s2.v[15] == if exists|p: int|
                sprite_covers(s.memory, s.i, vx, vy, k, p) && !s.display[p] {
                1u8
            } else {
                0u8
            }
            &&& (forall|p: int| sprite_covers(s.memory, s.i, vx, vy, k, p) ==> !s.display[p])
                && (exists|p: int| sprite_covers(s.memory, s.i, vx, vy, k, p)) ==> s2.v[15] == 1
        }),
{
    let s1 = step_spec(s, r1).0;
    let s2 = step_spec(s1, r2).0;
    let (vx, vy) = draw_origin(s, opcode_at(s));
    let k = decoded(opcode_at(s)).n * 8;
    let d1 = xor_sprite(s.display, s.memory, s.i, vx, vy, k);
    assert(s1.display == d1);
    assert(xor_sprite(d1, s.memory, s.i, vx, vy, k) =~= s.display);
    if exists|p: int| sprite_covers(s.memory, s.i, vx, vy, k, p) && !s.display[p] {
        let p = choose|p: int| sprite_covers(s.memory, s.i, vx, vy, k, p) && !s.display[p];
        assert(sprite_covers(s.memory, s.i, vx, vy, k, p) && d1[p]);
    }
    if (forall|p: int| sprite_covers(s.memory, s.i, vx, vy, k, p) ==> !s.display[p]) && (exists|p: int|
        sprite_covers(s.memory, s.i, vx, vy, k, p)) {
        let p = choose|p: int| sprite_covers(s.memory, s.i, vx, vy, k, p);
        assert(sprite_covers(s.memory, s.i, vx, vy, k, p) && !s.display[p]);
    }
}

} // verus!
