//! Board power and reset: reset-line levels, file-backed GPIO pins, and the
//! order in which a voltage stack is brought up and shut down.

use vstd::prelude::*;

use crate::text::{str_eq, str_trim, trim_spec};

verus! {

/// Logic level of a GPIO pin.
#[derive(Debug, Clone, Copy, PartialEq, Eq, Structural)]
pub enum PinValue {
    Low,
    High,
}

/// A PMBus TPS546 regulator used as a power rail.
pub struct Tps546PowerRail<T> {
    inner: T,
}

impl<T> Tps546PowerRail<T> {
    pub closed spec fn inner(&self) -> T {
        self.inner
    }

    pub fn new(inner: T) -> (r: Self)
        ensures
            r.inner() == inner,
    {
        Tps546PowerRail { inner }
    }

    pub fn into_inner(self) -> (r: T)
        ensures
            r == self.inner(),
    {
        self.inner
    }
}

/// An ASIC reset line driven through a GPIO pin.
pub struct GpioResetLine<P> {
    pin: P,
    active_low: bool,
}

/// The level that asserts or releases a reset line.
pub open spec fn reset_level(active_low: bool, asserted: bool) -> PinValue {
    if asserted == active_low {
        PinValue::Low
    } else {
        PinValue::High
    }
}

impl<P> GpioResetLine<P> {
    pub closed spec fn pin(&self) -> P {
        self.pin
    }

    pub closed spec fn is_active_low(&self) -> bool {
        self.active_low
    }

    pub fn new(pin: P, active_low: bool) -> (r: Self)
        ensures
            r.pin() == pin,
            r.is_active_low() == active_low,
    {
        GpioResetLine { pin, active_low }
    }

    pub fn into_inner(self) -> (r: P)
        ensures
            r == self.pin(),
    {
        self.pin
    }

    /// The level to drive to assert (`true`) or release (`false`) reset.
    pub fn level_for(&self, asserted: bool) -> (r: PinValue)
        ensures
            r == reset_level(self.is_active_low(), asserted),
    {
        if asserted == self.active_low {
            PinValue::Low
        } else {
            PinValue::High
        }
    }
}

/// A GPIO pin driven by writing one of two strings to a file.
#[derive(Debug, Clone)]
pub struct FileGpioPin {
    path: String,
    high_value: String,
    low_value: String,
}

impl FileGpioPin {
    pub closed spec fn path_spec(&self) -> Seq<char> {
        self.path@
    }

    pub closed spec fn high_spec(&self) -> Seq<char> {
        self.high_value@
    }

    pub closed spec fn low_spec(&self) -> Seq<char> {
        self.low_value@
    }

    pub fn new(path: String, high_value: String, low_value: String) -> (r: Self)
        ensures
            r.path_spec() == path@,
            r.high_spec() == high_value@,
            r.low_spec() == low_value@,
    {
        FileGpioPin { path, high_value, low_value }
    }

    /// The file that holds the pin's level.
    pub fn path(&self) -> (r: &str)
        ensures
            r@ == self.path_spec(),
    {
        self.path.as_str()
    }

    /// The string written to the file to drive `value`.
    pub fn raw_for(&self, value: PinValue) -> (r: &str)
        ensures
            value == PinValue::Low ==> r@ == self.low_spec(),
            value == PinValue::High ==> r@ == self.high_spec(),
    {
        match value {
            PinValue::Low => self.low_value.as_str(),
            PinValue::High => self.high_value.as_str(),
        }
    }

    /// The level that file contents stand for: high when they match the
    /// high string, surrounding whitespace ignored on both sides; low
    /// otherwise.
    pub fn value_from_contents(&self, raw: &str) -> (r: PinValue)
        ensures
            r == (if trim_spec(raw@) == trim_spec(self.high_spec()) {
                PinValue::High
            } else {
                PinValue::Low
            }),
    {
        let read = str_trim(raw);
        let high = str_trim(self.high_value.as_str());
        if str_eq(read, high) {
            PinValue::High
        } else {
            PinValue::Low
        }
    }
}

// ---------------------------------------------------------------------------
// Voltage stack sequencing.
// ---------------------------------------------------------------------------

/// One step of bringing a voltage stack up or down.
#[derive(Debug, Clone, Copy, PartialEq, Eq, Structural)]
pub enum PowerAction {
    /// Drive the reset line to its asserted level.
    AssertReset,
    /// Wait the plan's delay before powering rails.
    PrePowerDelay,
    /// Initialize the rail with this index.
    InitializeRail(usize),
    /// Apply the voltage of the plan step with this index.
    ApplyStep(usize),
    /// Wait the settle time of the plan step with this index.
    SettleStep(usize),
    /// Wait the plan's delay after the last step.
    PostPowerDelay,
    /// Drive the reset line to its released level.
    ReleaseReset,
    /// Wait the plan's delay after releasing reset.
    ReleaseResetDelay,
    /// A plan step names a rail index that does not exist: stop here.
    RailOutOfRange(usize),
    /// Set the rail with this index to zero volts.
    PowerOffRail(usize),
}

pub open spec fn initialize_rails_spec(n: nat) -> Seq<PowerAction> {
    Seq::new(n, |i: int| PowerAction::InitializeRail(i as usize))
}

/// The actions of the plan steps from step `i` on, stopping at the first
/// step whose rail does not exist.
pub open spec fn step_actions_spec(rail_count: nat, step_rails: Seq<usize>, i: nat) -> Seq<PowerAction>
    decreases step_rails.len() - i,
{
    if i >= step_rails.len() {
        Seq::empty()
    } else if step_rails[i as int] >= rail_count {
        seq![PowerAction::RailOutOfRange(step_rails[i as int])]
    } else {
        seq![PowerAction::ApplyStep(i as usize), PowerAction::SettleStep(i as usize)]
            + step_actions_spec(rail_count, step_rails, i + 1)
    }
}

/// Whether every plan step names an existing rail.
pub open spec fn steps_in_range(rail_count: nat, step_rails: Seq<usize>) -> bool {
    forall|i: int| 0 <= i < step_rails.len() ==> #[trigger] step_rails[i] < rail_count
}

/// The full bring-up sequence of a plan.
pub open spec fn bringup_spec(
    assert_reset_before_power: bool,
    has_reset_line: bool,
    rail_count: nat,
    step_rails: Seq<usize>,
) -> Seq<PowerAction> {
    let prelude = if assert_reset_before_power {
        (if has_reset_line {
            seq![PowerAction::AssertReset]
        } else {
            Seq::empty()
        }) + seq![PowerAction::PrePowerDelay]
    } else {
        Seq::empty()
    };
    let ending = if steps_in_range(rail_count, step_rails) {
        seq![PowerAction::PostPowerDelay] + (if has_reset_line {
            seq![PowerAction::ReleaseReset, PowerAction::ReleaseResetDelay]
        } else {
            Seq::empty()
        })
    } else {
        Seq::empty()
    };
    prelude + initialize_rails_spec(rail_count) + step_actions_spec(rail_count, step_rails, 0) + ending
}

/// The shutdown sequence: assert reset, then zero every rail, last rail
/// first.
pub open spec fn shutdown_spec(has_reset_line: bool, rail_count: nat) -> Seq<PowerAction> {
    (if has_reset_line {
        seq![PowerAction::AssertReset]
    } else {
        Seq::empty()
    }) + Seq::new(rail_count, |i: int| PowerAction::PowerOffRail((rail_count - 1 - i) as usize))
}

/// The order in which a bring-up plan acts: assert reset and wait (when
/// the plan asks for it), initialize every rail, apply each step and let it
/// settle, then wait and release reset. A step that names a missing rail
/// ends the sequence there.
pub fn bringup_actions(
    assert_reset_before_power: bool,
    has_reset_line: bool,
    rail_count: usize,
    step_rails: &[usize],
) -> (r: Vec<PowerAction>)
    ensures
        r@ == bringup_spec(assert_reset_before_power, has_reset_line, rail_count as nat, step_rails@),
{
    let mut actions: Vec<PowerAction> = Vec::new();
    if assert_reset_before_power {
        if has_reset_line {
            actions.push(PowerAction::AssertReset);
        }
        actions.push(PowerAction::PrePowerDelay);
    }
    let ghost prelude = actions@;
    let mut i: usize = 0;
    while i < rail_count
        invariant
            i <= rail_count,
            actions@ == prelude + initialize_rails_spec(i as nat),
        decreases rail_count - i,
    {
        actions.push(PowerAction::InitializeRail(i));
        i = i + 1;
        assert(actions@ =~= prelude + initialize_rails_spec(i as nat));
    }
    let ghost before_steps = actions@;
    let mut j: usize = 0;
    let mut completed = true;
    while j < step_rails.len()
        invariant_except_break
            completed,
            forall|k: int| 0 <= k < j ==> #[trigger] step_rails@[k] < rail_count,
            before_steps + step_actions_spec(rail_count as nat, step_rails@, 0) == actions@
                + step_actions_spec(rail_count as nat, step_rails@, j as nat),
        invariant
            j <= step_rails@.len(),
        ensures
            completed <==> steps_in_range(rail_count as nat, step_rails@),
            before_steps + step_actions_spec(rail_count as nat, step_rails@, 0) == actions@,
        decreases step_rails@.len() - j,
    {
        let rail = step_rails[j];
        if j + 1 == step_rails.len() {
            assert(step_actions_spec(rail_count as nat, step_rails@, (j + 1) as nat) =~= Seq::<PowerAction>::empty());
        }
        if rail >= rail_count {
            let ghost a = actions@;
            actions.push(PowerAction::RailOutOfRange(rail));
            assert(a + step_actions_spec(rail_count as nat, step_rails@, j as nat) =~= actions@
                + Seq::<PowerAction>::empty());
            completed = false;
            break;
        }
        let ghost a = actions@;
        actions.push(PowerAction::ApplyStep(j));
        actions.push(PowerAction::SettleStep(j));
        assert(a + step_actions_spec(rail_count as nat, step_rails@, j as nat) =~= actions@
            + step_actions_spec(rail_count as nat, step_rails@, (j + 1) as nat));
        j = j + 1;
    }
    if completed {
        actions.push(PowerAction::PostPowerDelay);
        if has_reset_line {
            actions.push(PowerAction::ReleaseReset);
            actions.push(PowerAction::ReleaseResetDelay);
        }
    }
    assert(actions@ =~= bringup_spec(assert_reset_before_power, has_reset_line, rail_count as nat, step_rails@));
    actions
}

/// The order in which a plan shuts a stack down: assert reset, then set
/// every rail to zero volts, last rail first.
pub fn shutdown_actions(has_reset_line: bool, rail_count: usize) -> (r: Vec<PowerAction>)
    ensures
        r@ == shutdown_spec(has_reset_line, rail_count as nat),
{
    let mut actions: Vec<PowerAction> = Vec::new();
    if has_reset_line {
        actions.push(PowerAction::AssertReset);
    }
    let ghost prelude = actions@;
    let mut i: usize = 0;
    while i < rail_count
        invariant
            i <= rail_count,
            actions@ == prelude + Seq::new(i as nat, |k: int| PowerAction::PowerOffRail((rail_count - 1 - k) as usize)),
        decreases rail_count - i,
    {
        actions.push(PowerAction::PowerOffRail(rail_count - 1 - i));
        i = i + 1;
        assert(actions@ =~= prelude + Seq::new(i as nat, |k: int| PowerAction::PowerOffRail((rail_count - 1 - k) as usize)));
    }
    assert(actions@ =~= shutdown_spec(has_reset_line, rail_count as nat));
    actions
}


/// With a reset line and every step naming an existing rail, bring-up ends
/// by releasing reset and waiting, whether or not reset was asserted before
/// power. With a reset line and reset
/// asserted before power, bring-up starts by asserting it.
pub proof fn lemma_bringup_releases_reset(
    assert_reset_before_power: bool,
    has_reset_line: bool,
    rail_count: nat,
    step_rails: Seq<usize>,
)
    ensures
        ({
            let a = bringup_spec(assert_reset_before_power, has_reset_line, rail_count, step_rails);
            &&& (has_reset_line && (forall|i: int| 0 <= i < step_rails.len() ==> #[trigger] step_rails[i]
                < rail_count)) ==> a.len() >= 3 && a[a.len() - 3] == PowerAction::PostPowerDelay
                && a[a.len() - 2] == PowerAction::ReleaseReset && a[a.len() - 1]
                == PowerAction::ReleaseResetDelay
            &&& (has_reset_line && assert_reset_before_power) ==> a.len() >= 2 && a[0]
                == PowerAction::AssertReset && a[1] == PowerAction::PrePowerDelay
        }),
{
    let a = bringup_spec(assert_reset_before_power, has_reset_line, rail_count, step_rails);
    let prelude = if assert_reset_before_power {
        (if has_reset_line {
            seq![PowerAction::AssertReset]
        } else {
            Seq::empty()
        }) + seq![PowerAction::PrePowerDelay]
    } else {
        Seq::empty()
    };
    let middle = prelude + initialize_rails_spec(rail_count) + step_actions_spec(rail_count, step_rails, 0);
    if has_reset_line && steps_in_range(rail_count, step_rails) {
        let ending = seq![PowerAction::PostPowerDelay] + seq![
            PowerAction::ReleaseReset,
            PowerAction::ReleaseResetDelay,
        ];
        assert(a == middle + ending);
        assert(a[a.len() - 1] == ending[2]);
        assert(a[a.len() - 2] == ending[1]);
        assert(a[a.len() - 3] == ending[0]);
    }
    if has_reset_line && assert_reset_before_power {
        assert(prelude =~= seq![PowerAction::AssertReset, PowerAction::PrePowerDelay]);
        assert(a[0] == prelude[0]);
        assert(a[1] == prelude[1]);
    }
}

} // verus!
