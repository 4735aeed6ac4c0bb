//! Which bus values changed and still have to be shown.
//!
//! Each kind of value has one slot; a newer value of a kind replaces an
//! older one not yet shown. Changes are handed out round-robin over the
//! kinds, so that a kind that changes often cannot starve the others.
use vstd::prelude::*;

verus! {

/// Number of kinds of shown values.
pub const INFO_CNT: usize = 6;

/// A bus value to show.
#[derive(Debug, Clone, Copy, PartialEq, Eq, Structural)]
pub enum Info {
    StowPressEast(u16),
    StowPressWest(u16),
    PolarSpeedCmd(u16),
    /// The I/O box command register.
    IoboxCmd(u16),
    /// The I/O box input register.
    IoboxInputs(u16),
    /// The I/O box output register.
    IoboxOutputs(u16),
    /// No value.
    END,
}

impl Info {
    /// The slot of this kind of value; [`INFO_CNT`] for no value.
    pub open spec fn spec_discriminant(self) -> usize {
        match self {
            Info::StowPressEast(_) => 0,
            Info::StowPressWest(_) => 1,
            Info::PolarSpeedCmd(_) => 2,
            Info::IoboxCmd(_) => 3,
            Info::IoboxInputs(_) => 4,
            Info::IoboxOutputs(_) => 5,
            Info::END => 6,
        }
    }

    /// The slot of this kind of value; [`INFO_CNT`] for no value.
    pub fn discriminant(&self) -> (r: usize)
        ensures
            r == self.spec_discriminant(),
    {
        match self {
            Info::StowPressEast(_) => 0,
            Info::StowPressWest(_) => 1,
            Info::PolarSpeedCmd(_) => 2,
            Info::IoboxCmd(_) => 3,
            Info::IoboxInputs(_) => 4,
            Info::IoboxOutputs(_) => 5,
            Info::END => 6,
        }
    }
}

impl Default for Info {
    fn default() -> (r: Info)
        ensures
            r == Info::END,
    {
        Info::END
    }
}

/// The slot that a round-robin scan starting after `idx` visits at step `k`
/// (`k` from 1 to [`INFO_CNT`]).
pub open spec fn slot_at(idx: int, k: int) -> int {
    (idx + k) % (INFO_CNT as int)
}

/// The first step `k` in `from..=INFO_CNT` at which the scan after `idx`
/// meets a filled slot.
pub open spec fn first_filled(slots: Seq<Info>, idx: int, from: int) -> Option<int>
    decreases INFO_CNT + 1 - from,
{
    if from > INFO_CNT || from < 1 {
        None
    } else if slots[slot_at(idx, from)] != Info::END {
        Some(from)
    } else {
        first_filled(slots, idx, from + 1)
    }
}

/// Changed values waiting to be shown, one slot per kind.
pub struct DisplayUpdates {
    new: [Info; 6],
    idx: usize,
}

impl DisplayUpdates {
    /// The slots, indexed by [`Info::spec_discriminant`].
    pub closed spec fn slots(&self) -> Seq<Info> {
        self.new@
    }

    /// The slot handed out last.
    pub closed spec fn last(&self) -> int {
        self.idx as int
    }

    /// The invariant: one slot per kind, each empty or holding its kind, and
    /// the last slot handed out is a slot.
    pub open spec fn wf(&self) -> bool {
        &&& self.slots().len() == INFO_CNT
        &&& 0 <= self.last() < INFO_CNT
        &&& forall|i: int|
            0 <= i < INFO_CNT ==> (#[trigger] self.slots()[i] == Info::END
                || self.slots()[i].spec_discriminant() == i)
    }

    /// No change waiting.
    pub fn new() -> (r: Self)
        ensures
            r.wf(),
            forall|i: int| 0 <= i < INFO_CNT ==> #[trigger] r.slots()[i] == Info::END,
    {
        DisplayUpdates { new: [Info::END; 6], idx: 0 }
    }

    /// Records a changed value, replacing a waiting value of its kind.
    pub fn set_info(&mut self, info: Info)
        requires
            old(self).wf(),
        ensures
            final(self).wf(),
            final(self).last() == old(self).last(),
            info == Info::END ==> final(self).slots() == old(self).slots(),
            info != Info::END ==> final(self).slots() == old(self).slots().update(
                info.spec_discriminant() as int,
                info,
            ),
    {
        if info == Info::END {
            return;
        }
        let i = info.discriminant();
        self.new[i] = info;
    }

    /// Hands out the next waiting change, scanning the slots round-robin
    /// after the one handed out last, and empties its slot.
    pub fn next_change(&mut self) -> (r: Option<Info>)
        requires
            old(self).wf(),
        ensures
            final(self).wf(),
            match first_filled(old(self).slots(), old(self).last(), 1) {
                None => r is None && final(self).slots() == old(self).slots() && final(self).last()
                    == old(self).last(),
                Some(k) => {
                    let j = slot_at(old(self).last(), k);
                    &&& r == Some(old(self).slots()[j])
                    &&& final(self).slots() == old(self).slots().update(j, Info::END)
                    &&& final(self).last() == j
                },
            },
    {
        let mut idx = self.idx;
        let mut k: usize = 1;
        while k <= INFO_CNT
            invariant
                self.wf(),
                self.slots() == old(self).slots(),
                self.last() == old(self).last(),
                1 <= k <= INFO_CNT + 1,
                idx == slot_at(old(self).last(), (k - 1) as int),
                first_filled(old(self).slots(), old(self).last(), 1) == first_filled(
                    old(self).slots(),
                    old(self).last(),
                    k as int,
                ),
            decreases INFO_CNT + 1 - k,
        {
            idx = idx + 1;
            if idx >= INFO_CNT {
                idx = 0;
            }
            assert(idx == slot_at(old(self).last(), k as int));
            if self.new[idx] != Info::END {
                let r = self.new[idx];
                self.new[idx] = Info::END;
                self.idx = idx;
                return Some(r);
            }
            k = k + 1;
        }
        None
    }
}

/// How a shown value is drawn, by how long ago it changed.
#[derive(Debug, Clone, Copy, PartialEq, Eq, Structural)]
pub enum ItemStyle {
    /// Changed in the current period.
    Current,
    /// Changed in the previous period.
    Aging,
    /// Not changed for longer.
    Old,
}

/// The style that a value which changed in period `info_age` takes in period
/// `current_age`, when it is to be redrawn; `None` when it is left as drawn:
/// a value already old, one whose style fits its age, and one from the
/// period after the current one (the counter just moved under it).
pub open spec fn spec_aged_style(current_age: i32, info_age: i32, style: ItemStyle) -> Option<
    ItemStyle,
> {
    let d = current_age - info_age;
    if d == -1 || style == ItemStyle::Old || (d == 0 && style == ItemStyle::Current) || (d == 1
        && style == ItemStyle::Aging) {
        None
    } else if d == 0 {
        Some(ItemStyle::Current)
    } else if d == 1 {
        Some(ItemStyle::Aging)
    } else {
        Some(ItemStyle::Old)
    }
}

/// The new style of a shown value as the periods pass, if it changes.
pub fn aged_style(current_age: i32, info_age: i32, style: ItemStyle) -> (r: Option<ItemStyle>)
    ensures
        r == spec_aged_style(current_age, info_age, style),
{
    let d = current_age as i64 - info_age as i64;
    if d == -1 || style == ItemStyle::Old || (d == 0 && style == ItemStyle::Current) || (d == 1
        && style == ItemStyle::Aging) {
        None
    } else if d == 0 {
        Some(ItemStyle::Current)
    } else if d == 1 {
        Some(ItemStyle::Aging)
    } else {
        Some(ItemStyle::Old)
    }
}

} // verus!
