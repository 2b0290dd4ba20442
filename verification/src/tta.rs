//! Time-triggered communication cycles: a fixed round of equally sized
//! slots, each allocated to one node. Times are microseconds.

use vstd::prelude::*;

verus! {

/// The character of a decimal digit.
pub open spec fn spec_digit_char(d: int) -> char {
    if d == 0 {
        '0'
    } else if d == 1 {
        '1'
    } else if d == 2 {
        '2'
    } else if d == 3 {
        '3'
    } else if d == 4 {
        '4'
    } else if d == 5 {
        '5'
    } else if d == 6 {
        '6'
    } else if d == 7 {
        '7'
    } else if d == 8 {
        '8'
    } else {
        '9'
    }
}

/// Decimal digits of a byte, without leading zeroes (a lone zero for 0).
pub open spec fn spec_u8_decimal(v: int) -> Seq<char> {
    if v >= 100 {
        seq![
            spec_digit_char(v / 100),
            spec_digit_char(v / 10 % 10),
            spec_digit_char(v % 10),
        ]
    } else if v >= 10 {
        seq![spec_digit_char(v / 10), spec_digit_char(v % 10)]
    } else {
        seq![spec_digit_char(v)]
    }
}

/// The default node label of slot `i`.
pub open spec fn spec_node_label(i: int) -> Seq<char> {
    "node_"@ + spec_u8_decimal(i)
}

/// One slot of a time-triggered cycle.
#[derive(Debug, Clone)]
pub struct TimeSlot {
    pub id: u8,
    pub duration_us: u32,
    pub allocated_node: String,
}

/// A time-triggered round: its slots, total cycle time, the slot in
/// progress, and when the round started on the caller's clock.
#[derive(Debug, Clone)]
pub struct TTACycle {
    pub slots: Vec<TimeSlot>,
    pub cycle_time_us: u32,
    pub current_slot: u8,
    pub last_cycle_start: Option<u64>,
}

impl TTACycle {
    /// Builds a round of `slot_count` slots, each `cycle_time_us`
    /// divided evenly, slot `i` allocated to node `i`.
    pub fn new(cycle_time_us: u32, slot_count: u8) -> (r: TTACycle)
        requires
            slot_count >= 1,
        ensures
            r.slots@.len() == slot_count,
            r.cycle_time_us == cycle_time_us,
            r.current_slot == 0,
            r.last_cycle_start is None,
            forall|i: int|
                0 <= i < slot_count ==> (#[trigger] r.slots@[i]).id == i
                    && r.slots@[i].duration_us == cycle_time_us / (slot_count as u32)
                    && r.slots@[i].allocated_node@ == spec_node_label(i),
    {
        let slot_duration = cycle_time_us / (slot_count as u32);
        let mut slots: Vec<TimeSlot> = Vec::new();
        let mut i: u8 = 0;
        while i < slot_count
            invariant
                i <= slot_count,
                slots@.len() == i,
                forall|j: int|
                    0 <= j < i ==> (#[trigger] slots@[j]).id == j && slots@[j].duration_us
                        == slot_duration && slots@[j].allocated_node@ == spec_node_label(j),
            decreases slot_count - i,
        {
            slots.push(TimeSlot { id: i, duration_us: slot_duration, allocated_node: node_name(i) });
            i = i + 1;
        }
        TTACycle { slots, cycle_time_us, current_slot: 0, last_cycle_start: None }
    }

    /// Starts a round at `now_us` on the caller's clock: the first slot
    /// becomes current.
    pub fn start_cycle(&mut self, now_us: u64)
        ensures
            final(self).last_cycle_start == Some(now_us),
            final(self).current_slot == 0,
            final(self).slots@ == old(self).slots@,
            final(self).cycle_time_us == old(self).cycle_time_us,
    {
        self.last_cycle_start = Some(now_us);
        self.current_slot = 0;
    }

    /// Moves to the next slot; true while the new slot still exists.
    pub fn advance_slot(&mut self) -> (more: bool)
        requires
            old(self).current_slot < 255,
        ensures
            final(self).current_slot == old(self).current_slot + 1,
            final(self).slots@ == old(self).slots@,
            final(self).cycle_time_us == old(self).cycle_time_us,
            final(self).last_cycle_start == old(self).last_cycle_start,
            more == (final(self).current_slot < final(self).slots@.len()),
    {
        self.current_slot = self.current_slot + 1;
        (self.current_slot as usize) < self.slots.len()
    }

    /// The slot in progress, if the current index is in range.
    pub fn get_current_slot(&self) -> (r: Option<&TimeSlot>)
        ensures
            (self.current_slot as int) < self.slots@.len() ==> (r matches Some(s) && *s
                == self.slots@[self.current_slot as int]),
            (self.current_slot as int) >= self.slots@.len() ==> r is None,
    {
        if (self.current_slot as usize) < self.slots.len() {
            Some(&self.slots[self.current_slot as usize])
        } else {
            None
        }
    }

    /// Time from `now_us` until the current slot's duration has elapsed
    /// since the round started; zero when no round is running, the slot
    /// index is out of range, or the duration has already passed.
    pub fn time_until_next_slot(&self, now_us: u64) -> (r: u64)
        ensures
            match self.last_cycle_start {
                Some(start) => {
                    if (self.current_slot as int) < self.slots@.len() {
                        let duration =
                            self.slots@[self.current_slot as int].duration_us as int;
                        let elapsed = now_us - start;
                        r == if 0 <= elapsed < duration {
                            duration - elapsed
                        } else {
                            0
                        }
                    } else {
                        r == 0
                    }
                },
                None => r == 0,
            },
    {
        if let Some(start) = self.last_cycle_start {
            if (self.current_slot as usize) < self.slots.len() {
                let duration = self.slots[self.current_slot as usize].duration_us as u64;
                if now_us >= start && now_us - start < duration {
                    return duration - (now_us - start);
                }
                if now_us < start {
                    return 0;
                }
            }
        }
        0
    }
}

/// The default node label of a slot.
fn node_name(i: u8) -> (r: String)
    ensures
        r@ == spec_node_label(i as int),
{
    let mut name = String::new();
    name.append("node_");
    name.append(u8_decimal(i).as_str());
    proof {
        assert(name@ =~= spec_node_label(i as int));
    }
    name
}

/// Decimal digits of a byte.
fn u8_decimal(v: u8) -> (r: String)
    ensures
        r@ == spec_u8_decimal(v as int),
{
    let mut out = String::new();
    let hundreds = v / 100;
    let rest = v % 100;
    let tens = rest / 10;
    let ones = rest % 10;
    proof {
        assert(v as int / 10 % 10 == rest as int / 10) by (nonlinear_arith)
            requires
                rest == v % 100,
                v <= 255,
        ;
        assert(v as int % 10 == rest as int % 10) by (nonlinear_arith)
            requires
                rest == v % 100,
        ;
    }
    if hundreds > 0 {
        out.append(digit_str(hundreds));
        out.append(digit_str(tens));
        out.append(digit_str(ones));
        proof {
            assert(out@ =~= spec_u8_decimal(v as int));
        }
    } else if tens > 0 {
        out.append(digit_str(tens));
        out.append(digit_str(ones));
        proof {
            assert(out@ =~= spec_u8_decimal(v as int));
        }
    } else {
        out.append(digit_str(ones));
        proof {
            assert(out@ =~= spec_u8_decimal(v as int));
        }
    }
    out
}

/// A single decimal digit as text.
fn digit_str(d: u8) -> (r: &'static str)
    requires
        d <= 9,
    ensures
        r@ == seq![spec_digit_char(d as int)],
{
    proof {
        reveal_strlit("0");
        reveal_strlit("1");
        reveal_strlit("2");
        reveal_strlit("3");
        reveal_strlit("4");
        reveal_strlit("5");
        reveal_strlit("6");
        reveal_strlit("7");
        reveal_strlit("8");
        reveal_strlit("9");
    }
    let r = if d == 0 {
        "0"
    } else if d == 1 {
        "1"
    } else if d == 2 {
        "2"
    } else if d == 3 {
        "3"
    } else if d == 4 {
        "4"
    } else if d == 5 {
        "5"
    } else if d == 6 {
        "6"
    } else if d == 7 {
        "7"
    } else if d == 8 {
        "8"
    } else {
        "9"
    };
    proof {
        assert(r@ =~= seq![spec_digit_char(d as int)]);
    }
    r
}

} // verus!
