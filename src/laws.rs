use vstd::prelude::*;

use crate::decode::{op_family, op_kk, op_n, op_nnn, op_x, op_y};
use crate::draw::{col_offset, collides, drawn_pixel, lemma_bits, row_offset, sprite_bit};
use crate::exec::{cycle_outcome, step, TICK_NANOS};
use crate::ops::{add_carry, add_result, no_borrow, sub_result};
use crate::state::{blank_display, Chip8View, FaultKind, WaitState};

verus! {

/// The state after `m` rounds of the timers, each `elapsed` nanoseconds long.
pub open spec fn ticked_times(s: Chip8View, elapsed: u64, m: nat) -> Chip8View
    decreases m,
{
    if m == 0 {
        s
    } else {
        ticked_times(s, elapsed, (m - 1) as nat).ticked(elapsed)
    }
}

/// Runs the instructions `ops` one after another from `s`, stopping at the first fault.
pub open spec fn run(s: Chip8View, ops: Seq<u16>, value: u8) -> Result<Chip8View, FaultKind>
    decreases ops.len(),
{
    if ops.len() == 0 {
        Ok(s)
    } else {
        match step(s, ops[0], value) {
            Ok(t) => run(t, ops.drop_first(), value),
            Err(e) => Err(e),
        }
    }
}

/// Calls to each address of `addrs` in turn, each nested in the one before, then as many
/// returns.
pub open spec fn nested_calls(addrs: Seq<u16>) -> Seq<u16>
    decreases addrs.len(),
{
    if addrs.len() == 0 {
        Seq::empty()
    } else {
        seq![(0x2000 + addrs[0]) as u16] + nested_calls(addrs.drop_first()) + seq![0x00EEu16]
    }
}

proof fn lemma_fields(op: u16)
    ensures
        op_nnn(op) == op as int % 4096,
        op_kk(op) == op as int % 256,
{
}

proof fn lemma_alu_fields(x: int, y: int, n: int)
    requires
        0 <= x < 16,
        0 <= y < 16,
        0 <= n < 16,
    ensures
        ({
            let op = (0x8000 + x * 256 + y * 16 + n) as u16;
            &&& op_family(op) == 8
            &&& op_x(op) == x
            &&& op_y(op) == y
            &&& op_n(op) == n
            &&& op != 0x00E0
            &&& op != 0x00EE
        }),
{
}

proof fn lemma_run_append(s: Chip8View, a: Seq<u16>, b: Seq<u16>, value: u8)
    ensures
        run(s, a + b, value) == match run(s, a, value) {
            Ok(t) => run(t, b, value),
            Err(e) => Err(e),
        },
    decreases a.len(),
{
    if a.len() == 0 {
        assert(a + b =~= b);
    } else {
        assert((a + b).drop_first() =~= a.drop_first() + b);
        match step(s, a[0], value) {
            Ok(t) => lemma_run_append(t, a.drop_first(), b, value),
            Err(e) => {},
        }
    }
}

/// `8xy4` stores the sum of `Vx` and `Vy` modulo 256 in `Vx`, and sets VF to 1 exactly when
/// the sum reaches 256.
pub proof fn lemma_add_xy(s: Chip8View, x: int, y: int)
    requires
        s.wf(),
        0 <= x < 15,
        0 <= y < 16,
    ensures
        ({
            let t = s.with_result(x, add_result(s.v[x], s.v[y]), add_carry(s.v[x], s.v[y]));
            &&& t.v[x] == (s.v[x] + s.v[y]) % 256
            &&& (t.v[15] == 1) == (s.v[x] + s.v[y] >= 256)
            &&& t.v[15] <= 1
        }),
{
}

/// `8xy5` stores `Vx - Vy` modulo 256 in `Vx` with VF = 1 exactly when no borrow occurs
/// (`Vx >= Vy`), and `8yx7` is its mirror image: it computes the same value and flag into `Vy`.
#[verifier::rlimit(40)]
pub proof fn lemma_sub_mirror(s: Chip8View, x: int, y: int, value: u8)
    requires
        s.wf(),
        0 <= x < 15,
        0 <= y < 15,
        x != y,
    ensures
        ({
            let sub = step(s, (0x8000 + x * 256 + y * 16 + 5) as u16, value);
            let subn = step(s, (0x8000 + y * 256 + x * 16 + 7) as u16, value);
            &&& sub is Ok
            &&& subn is Ok
            &&& sub->Ok_0.v[x] == (s.v[x] - s.v[y]) % 256
            &&& (sub->Ok_0.v[15] == 1) == (s.v[x] >= s.v[y])
            &&& sub->Ok_0.v[15] <= 1
            &&& subn->Ok_0.v[y] == sub->Ok_0.v[x]
            &&& subn->Ok_0.v[15] == sub->Ok_0.v[15]
        }),
{
    reveal(step);
    let op1 = (0x8000 + x * 256 + y * 16 + 5) as u16;
    let op2 = (0x8000 + y * 256 + x * 16 + 7) as u16;
    lemma_alu_fields(x, y, 5);
    lemma_alu_fields(y, x, 7);
    let t1 = s.with_result(x, sub_result(s.v[x], s.v[y]), no_borrow(s.v[x], s.v[y])).advanced();
    let t2 = s.with_result(y, sub_result(s.v[x], s.v[y]), no_borrow(s.v[x], s.v[y])).advanced();
    assert(step(s, op1, value) == Ok::<Chip8View, FaultKind>(t1));
    assert(step(s, op2, value) == Ok::<Chip8View, FaultKind>(t2));
}

/// `00E0` turns every pixel off, whatever the display held.
#[verifier::rlimit(40)]
pub proof fn lemma_clear(s: Chip8View, value: u8)
    requires
        s.wf(),
    ensures
        step(s, 0x00E0, value) is Ok,
        step(s, 0x00E0, value)->Ok_0.display == blank_display(),
{
    reveal(step);
}

proof fn lemma_xor_twice()
    ensures
        forall|a: u8, b: u8| #[trigger] ((a ^ b) ^ b) == a,
        forall|b: u8| #[trigger] (0u8 ^ b) == b,
{
    assert forall|a: u8, b: u8| #[trigger] ((a ^ b) ^ b) == a by {
        assert(((a ^ b) ^ b) == a) by (bit_vector);
    }
    assert forall|b: u8| #[trigger] (0u8 ^ b) == b by {
        assert((0u8 ^ b) == b) by (bit_vector);
    }
}

proof fn lemma_offsets(vx: int, vy: int, k: int, j: int)
    requires
        0 <= k < 32,
        0 <= j < 64,
    ensures
        row_offset((vy + k) % 32, vy) == k,
        col_offset((vx + j) % 64, vx) == j,
{
    vstd::arithmetic::div_mod::lemma_sub_mod_noop_right((vy + k) % 32, vy, 32);
    vstd::arithmetic::div_mod::lemma_sub_mod_noop(vy + k, vy, 32);
    vstd::arithmetic::div_mod::lemma_small_mod(k as nat, 32);
    vstd::arithmetic::div_mod::lemma_sub_mod_noop_right((vx + j) % 64, vx, 64);
    vstd::arithmetic::div_mod::lemma_sub_mod_noop(vx + j, vx, 64);
    vstd::arithmetic::div_mod::lemma_small_mod(j as nat, 64);
}

/// Drawing wraps at the edges: row `k`, column `j` of the sprite lands on display row
/// `(Vy + k) mod 32`, column `(Vx + j) mod 64`, where it flips the pixel when its bit is set.
pub proof fn lemma_draw_wraps(s: Chip8View, x: int, y: int, n: int, k: int, j: int)
    requires
        s.wf(),
        0 <= x < 16,
        0 <= y < 16,
        0 <= n < 16,
        s.i + n <= 4096,
        0 <= k < n,
        0 <= j < 8,
    ensures
        ({
            let r = (s.v[y] + k) % 32;
            let c = (s.v[x] + j) % 64;
            let sprite = s.memory.subrange(s.i as int, s.i + n);
            s.drawn(x, y, n).display[r][c] == s.display[r][c] ^ sprite_bit(sprite[k], j)
        }),
{
    lemma_offsets(s.v[x] as int, s.v[y] as int, k, j);
}

/// Drawing the same sprite twice at the same place, with neither coordinate in VF, gives the
/// display back; and on a blank display the first drawing reports no collision.
#[verifier::rlimit(40)]
pub proof fn lemma_draw_twice(s: Chip8View, x: int, y: int, n: int)
    requires
        s.wf(),
        0 <= x < 15,
        0 <= y < 15,
        0 <= n < 16,
        s.i + n <= 4096,
    ensures
        s.drawn(x, y, n).drawn(x, y, n).display == s.display,
        s.display == blank_display() ==> s.drawn(x, y, n).v[15] == 0,
{
    lemma_xor_twice();
    let t = s.drawn(x, y, n);
    let sprite = s.memory.subrange(s.i as int, s.i + n);
    assert(t.v[x] == s.v[x] && t.v[y] == s.v[y] && t.memory == s.memory && t.i == s.i);
    assert(t.drawn(x, y, n).display =~~= s.display);
    if s.display == blank_display() {
        if collides(s.display, sprite, s.v[x] as int, s.v[y] as int) {
            let (k, j) = choose|k: int, j: int|
                0 <= k < sprite.len() && 0 <= j < 8
                    && s.display[(s.v[y] + k) % 32][(s.v[x] + j) % 64] == 1
                    && #[trigger] sprite_bit(sprite[k], j) == 1;
            assert(false);
        }
    }
}

/// On a blank display, drawing a sprite a second time reports a collision exactly when the
/// sprite has a lit pixel: the second drawing erases every pixel that the first one lit.
#[verifier::rlimit(40)]
pub proof fn lemma_second_draw_flag(s: Chip8View, x: int, y: int, n: int)
    requires
        s.wf(),
        0 <= x < 15,
        0 <= y < 15,
        0 <= n < 16,
        s.i + n <= 4096,
        s.display == blank_display(),
    ensures
        ({
            let sprite = s.memory.subrange(s.i as int, s.i + n);
            (s.drawn(x, y, n).drawn(x, y, n).v[15] == 0) == (forall|k: int, j: int|
                0 <= k < n && 0 <= j < 8 ==> #[trigger] sprite_bit(sprite[k], j) == 0)
        }),
{
    lemma_xor_twice();
    let t = s.drawn(x, y, n);
    let sprite = s.memory.subrange(s.i as int, s.i + n);
    let vx = s.v[x] as int;
    let vy = s.v[y] as int;
    assert(t.v[x] == s.v[x] && t.v[y] == s.v[y] && t.memory == s.memory && t.i == s.i);
    if collides(t.display, sprite, vx, vy) {
        let (k, j) = choose|k: int, j: int|
            0 <= k < sprite.len() && 0 <= j < 8 && t.display[(vy + k) % 32][(vx + j) % 64] == 1
                && #[trigger] sprite_bit(sprite[k], j) == 1;
        assert(!(forall|k: int, j: int|
            0 <= k < n && 0 <= j < 8 ==> #[trigger] sprite_bit(sprite[k], j) == 0));
    } else {
        assert forall|k: int, j: int| 0 <= k < n && 0 <= j < 8 implies #[trigger] sprite_bit(sprite[k], j)
            == 0 by {
            lemma_offsets(vx, vy, k, j);
            let r = (vy + k) % 32;
            let c = (vx + j) % 64;
            assert(t.display[r][c] == drawn_pixel(s.display, sprite, vx, vy, r, c));
            lemma_bits();
            if sprite_bit(sprite[k], j) != 0 {
                assert(t.display[r][c] == 1);
            }
        }
    }
}

#[verifier::rlimit(40)]
proof fn lemma_step_call(s: Chip8View, a: u16, value: u8)
    requires
        a < 0x1000,
        s.stack.len() < 16,
    ensures
        step(s, (0x2000 + a) as u16, value) == Ok::<Chip8View, FaultKind>(s.called(a as int)),
{
    reveal(step);
    lemma_fields((0x2000 + a) as u16);
    assert(op_family((0x2000 + a) as u16) == 2);
}

proof fn lemma_step_ret(s: Chip8View, value: u8)
    requires
        s.stack.len() > 0,
    ensures
        step(s, 0x00EEu16, value) == Ok::<Chip8View, FaultKind>(s.returned().advanced()),
{
    reveal(step);
}

proof fn lemma_run_one(s: Chip8View, op: u16, value: u8)
    ensures
        run(s, seq![op], value) == step(s, op, value),
{
    assert(seq![op].drop_first() =~= Seq::<u16>::empty());
    match step(s, op, value) {
        Ok(t) => {
            assert(run(t, Seq::<u16>::empty(), value) == Ok::<Chip8View, FaultKind>(t));
        },
        Err(e) => {},
    }
}

/// Nested calls to any addresses, as deep as the stack allows, followed by as many returns
/// leave the program counter just after the outermost call, with the stack and everything
/// else as they were.
#[verifier::rlimit(40)]
pub proof fn lemma_call_return(s: Chip8View, addrs: Seq<u16>, value: u8)
    requires
        s.wf(),
        s.pc < 0x1000,
        1 <= addrs.len(),
        s.stack.len() + addrs.len() <= 16,
        forall|k: int| 0 <= k < addrs.len() ==> #[trigger] addrs[k] < 0x1000,
    ensures
        run(s, nested_calls(addrs), value) == Ok::<Chip8View, FaultKind>(s.advanced()),
    decreases addrs.len(),
{
    let a = addrs[0];
    let call = (0x2000 + a) as u16;
    let rest = addrs.drop_first();
    let inner = nested_calls(rest);
    let s1 = s.called(a as int);
    lemma_step_call(s, a, value);
    lemma_run_one(s, call, value);
    assert(nested_calls(addrs) == seq![call] + inner + seq![0x00EEu16]);
    lemma_run_append(s, seq![call] + inner, seq![0x00EEu16], value);
    lemma_run_append(s, seq![call], inner, value);
    let t = if addrs.len() == 1 {
        assert(inner =~= Seq::<u16>::empty());
        s1
    } else {
        assert forall|k: int| 0 <= k < rest.len() implies #[trigger] rest[k] < 0x1000 by {
            assert(rest[k] == addrs[k + 1]);
        }
        assert(s1.wf()) by {
            assert forall|k: int| 0 <= k < s1.stack.len() implies #[trigger] s1.stack[k] < 0x1000 by {
                if k < s.stack.len() {
                    assert(s1.stack[k] == s.stack[k]);
                }
            }
        }
        lemma_call_return(s1, rest, value);
        s1.advanced()
    };
    assert(run(s1, inner, value) == Ok::<Chip8View, FaultKind>(t));
    assert(t.stack == s.stack.push(s.pc as u16));
    lemma_step_ret(t, value);
    lemma_run_one(t, 0x00EEu16, value);
    assert(t.returned().advanced().stack =~= s.stack);
    assert(t.returned().advanced() == s.advanced());
}

proof fn lemma_wait_fields(x: int)
    requires
        0 <= x < 16,
    ensures
        ({
            let op = (0xF00A + x * 256) as u16;
            &&& op_family(op) == 15
            &&& op_x(op) == x
            &&& op_kk(op) == 0x0A
            &&& op != 0x00E0
            &&& op != 0x00EE
        }),
{
}

#[verifier::rlimit(40)]
proof fn lemma_step_wait(s: Chip8View, x: int, value: u8)
    requires
        0 <= x < 16,
    ensures
        step(s, (0xF00A + x * 256) as u16, value) == Ok::<Chip8View, FaultKind>(
            s.with_wait(WaitState::AwaitingKey(x as u8)).advanced(),
        ),
{
    lemma_wait_fields(x);
    reveal(step);
}

/// `Fx0A` stops decoding: later cycles leave all but the timers alone, until a key press
/// writes its code into `Vx` and lets decoding resume.
pub proof fn lemma_key_wait(s: Chip8View, x: int, value: u8, elapsed: u64, key: int)
    requires
        s.wf(),
        s.wait == WaitState::Running,
        0 <= x < 16,
        0 <= key < 16,
    ensures
        ({
            let t = step(s, (0xF00A + x * 256) as u16, value)->Ok_0;
            let u = cycle_outcome(t, elapsed, value).1;
            let w = u.key_pressed(key);
            &&& step(s, (0xF00A + x * 256) as u16, value) is Ok
            &&& t.wait == WaitState::AwaitingKey(x as u8)
            &&& cycle_outcome(t, elapsed, value).0 is Ok
            &&& u == t.ticked(elapsed)
            &&& u.pc == t.pc && u.v == t.v && u.memory == t.memory && u.display == t.display
            &&& w.v[x] == key
            &&& w.wait == WaitState::Running
        }),
{
    lemma_step_wait(s, x, value);
}

/// Each round of a full sixtieth of a second takes one from both timers, which stop at zero:
/// after `m` rounds a timer that held `d` holds `d - m`, or 0 when `m >= d`.
pub proof fn lemma_timer_ticks(s: Chip8View, m: nat)
    requires
        s.elapsed == 0,
    ensures
        ticked_times(s, TICK_NANOS, m).delay == if s.delay >= m { s.delay - m } else { 0 },
        ticked_times(s, TICK_NANOS, m).sound == if s.sound >= m { s.sound - m } else { 0 },
        ticked_times(s, TICK_NANOS, m).elapsed == 0,
    decreases m,
{
    if m > 0 {
        lemma_timer_ticks(s, (m - 1) as nat);
    }
}

} // verus!
