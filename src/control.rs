//! The threshold decision and the per-actuator step of the control loop.
use vstd::prelude::*;

use crate::config::Config;
use crate::text::Temperature;

verus! {

/// What to do with an actuator.
#[derive(Clone, Copy, Debug, PartialEq, Eq, Structural)]
pub enum Command {
    On,
    Off,
    NoAction,
}

/// The threshold policy. When enabled, "above the minimum" is tested before
/// "below the maximum", so a reading above both thresholds still gives `On`.
pub open spec fn decision(reading: int, enabled: bool, min_temp: int, max_temp: int) -> Command {
    if !enabled {
        Command::Off
    } else if reading > min_temp {
        Command::On
    } else if reading < max_temp {
        Command::Off
    } else {
        Command::NoAction
    }
}

/// Decides the command for one reading.
pub fn decide(
    reading: Temperature,
    enabled: bool,
    min_temp: Temperature,
    max_temp: Temperature,
) -> (r: Command)
    ensures
        r == decision(
            reading.hundredths as int,
            enabled,
            min_temp.hundredths as int,
            max_temp.hundredths as int,
        ),
{
    if !enabled {
        Command::Off
    } else if reading.hundredths > min_temp.hundredths {
        Command::On
    } else if reading.hundredths < max_temp.hundredths {
        Command::Off
    } else {
        Command::NoAction
    }
}

/// With control disabled the command is `Off`, whatever the reading and thresholds.
pub proof fn lemma_disabled_turns_off(reading: int, min_temp: int, max_temp: int)
    ensures
        decision(reading, false, min_temp, max_temp) == Command::Off,
{
}

/// `NoAction` is given exactly when control is enabled and the reading lies
/// between the thresholds taken the other way round (`max_temp <= reading <=
/// min_temp`); so with `min_temp < max_temp` it is never given, and with equal
/// thresholds only for a reading equal to both.
pub proof fn lemma_no_action_band(reading: int, enabled: bool, min_temp: int, max_temp: int)
    ensures
        decision(reading, enabled, min_temp, max_temp) == Command::NoAction <==> (enabled
            && max_temp <= reading <= min_temp),
        min_temp < max_temp ==> decision(reading, enabled, min_temp, max_temp)
            != Command::NoAction,
        min_temp == max_temp ==> (decision(reading, enabled, min_temp, max_temp)
            == Command::NoAction <==> (enabled && reading == min_temp)),
{
}

/// A device attached to the hub, as far as the control loop cares.
#[derive(Clone, Copy, Debug, PartialEq, Eq, Structural)]
pub enum ChildDevice {
    /// A temperature sensor with its current reading.
    TemperatureSensor(Temperature),
    /// Any other kind of device.
    Other,
}

/// The reading of the first temperature sensor in the listing.
pub open spec fn first_sensor(children: Seq<ChildDevice>) -> Option<Temperature>
    decreases children.len(),
{
    if children.len() == 0 {
        None
    } else {
        match children[0] {
            ChildDevice::TemperatureSensor(t) => Some(t),
            ChildDevice::Other => first_sensor(children.drop_first()),
        }
    }
}

/// Finds the reading of the first temperature sensor in the listing.
pub fn first_sensor_reading(children: &Vec<ChildDevice>) -> (r: Option<Temperature>)
    ensures
        r == first_sensor(children@),
{
    let mut i: usize = 0;
    assert(children@.subrange(0, children@.len() as int) =~= children@);
    while i < children.len()
        invariant
            i <= children@.len(),
            first_sensor(children@) == first_sensor(
                children@.subrange(i as int, children@.len() as int),
            ),
        decreases children.len() - i,
    {
        let ghost rest = children@.subrange(i as int, children@.len() as int);
        assert(rest.drop_first() =~= children@.subrange(i + 1, children@.len() as int));
        assert(rest[0] == children@[i as int]);
        match children[i] {
            ChildDevice::TemperatureSensor(t) => {
                return Some(t);
            },
            ChildDevice::Other => {},
        }
        i = i + 1;
    }
    None
}

/// The command for one actuator in a cycle: nothing when the listing holds no
/// sensor, else the decision on the first sensor's reading.
pub open spec fn step_command(
    children: Seq<ChildDevice>,
    enabled: bool,
    min_temp: Temperature,
    max_temp: Temperature,
) -> Command {
    match first_sensor(children) {
        None => Command::NoAction,
        Some(t) => decision(
            t.hundredths as int,
            enabled,
            min_temp.hundredths as int,
            max_temp.hundredths as int,
        ),
    }
}

/// One thermostat step for one actuator, given the hub's listing of child
/// devices and the active configuration.
pub fn thermostat(children: &Vec<ChildDevice>, cfg: &Config) -> (r: Command)
    ensures
        r == step_command(children@, cfg.thermostat_enabled, cfg.min_temp, cfg.max_temp),
{
    match first_sensor_reading(children) {
        None => Command::NoAction,
        Some(t) => decide(t, cfg.thermostat_enabled, cfg.min_temp, cfg.max_temp),
    }
}

/// Where the poll loop stands.
#[derive(Clone, Copy, Debug, PartialEq, Eq, Structural)]
pub enum Phase {
    /// Waiting for the configuration to be reloaded.
    Reloading,
    /// Waiting for the hub's listing for the actuator with this index.
    Listing(usize),
    /// Waiting for the switch command on the actuator with this index.
    Actuating(usize),
    /// Waiting for the poll interval to elapse.
    Sleeping,
    /// Finished, after a gateway failure or a cancellation.
    Stopped,
}

/// The outside work that the loop asks for next.
#[derive(Clone, Copy, Debug, PartialEq, Eq, Structural)]
pub enum Action {
    Reload,
    ListChildren(usize),
    TurnOn(usize),
    TurnOff(usize),
    /// Sleep for this many seconds.
    Sleep(u64),
    Stop,
}

/// The decisions of the poll loop: reload, then for each actuator list the
/// hub's children, decide and switch, then sleep for the poll interval.
pub struct ControlLoop {
    pub phase: Phase,
    pub actuators: usize,
}

/// What follows once actuator `i` is done: the next actuator's listing, or the
/// sleep that ends the cycle.
pub open spec fn after_actuator(i: usize, n: usize, secs: u64) -> (Phase, Action) {
    if i + 1 < n {
        (Phase::Listing((i + 1) as usize), Action::ListChildren((i + 1) as usize))
    } else {
        (Phase::Sleeping, Action::Sleep(secs))
    }
}

impl ControlLoop {
    /// A loop over `actuators` actuators; a cycle starts with a reload.
    pub fn new(actuators: usize) -> (r: (ControlLoop, Action))
        ensures
            r.0.phase == Phase::Reloading,
            r.0.actuators == actuators,
            r.1 == Action::Reload,
    {
        (ControlLoop { phase: Phase::Reloading, actuators }, Action::Reload)
    }

    fn advance(&mut self, i: usize, secs: u64) -> (a: Action)
        ensures
            (final(self).phase, a) == after_actuator(i, old(self).actuators, secs),
            final(self).actuators == old(self).actuators,
    {
        if i < usize::MAX && i + 1 < self.actuators {
            self.phase = Phase::Listing(i + 1);
            Action::ListChildren(i + 1)
        } else {
            self.phase = Phase::Sleeping;
            Action::Sleep(secs)
        }
    }

    /// The reload has been attempted (whatever its outcome); `cfg` is the
    /// active configuration now.
    pub fn on_reloaded(&mut self, cfg: &Config) -> (a: Action)
        ensures
            final(self).actuators == old(self).actuators,
            old(self).phase == Phase::Reloading && old(self).actuators > 0 ==> final(self).phase
                == Phase::Listing(0) && a == Action::ListChildren(0),
            old(self).phase == Phase::Reloading && old(self).actuators == 0 ==> final(self).phase
                == Phase::Sleeping && a == Action::Sleep(cfg.duration),
            old(self).phase != Phase::Reloading ==> final(self).phase == Phase::Stopped && a
                == Action::Stop,
    {
        if self.phase != Phase::Reloading {
            self.phase = Phase::Stopped;
            Action::Stop
        } else if self.actuators > 0 {
            self.phase = Phase::Listing(0);
            Action::ListChildren(0)
        } else {
            self.phase = Phase::Sleeping;
            Action::Sleep(cfg.duration)
        }
    }

    /// The hub listed `children` for the current actuator: decide, and switch
    /// it, or move on when there is nothing to do.
    pub fn on_listed(&mut self, children: &Vec<ChildDevice>, cfg: &Config) -> (a: Action)
        ensures
            final(self).actuators == old(self).actuators,
            match old(self).phase {
                Phase::Listing(i) => match step_command(
                    children@,
                    cfg.thermostat_enabled,
                    cfg.min_temp,
                    cfg.max_temp,
                ) {
                    Command::On => final(self).phase == Phase::Actuating(i) && a == Action::TurnOn(
                        i,
                    ),
                    Command::Off => final(self).phase == Phase::Actuating(i) && a
                        == Action::TurnOff(i),
                    Command::NoAction => (final(self).phase, a) == after_actuator(
                        i,
                        old(self).actuators,
                        cfg.duration,
                    ),
                },
                _ => final(self).phase == Phase::Stopped && a == Action::Stop,
            },
    {
        match self.phase {
            Phase::Listing(i) => match thermostat(children, cfg) {
                Command::On => {
                    self.phase = Phase::Actuating(i);
                    Action::TurnOn(i)
                },
                Command::Off => {
                    self.phase = Phase::Actuating(i);
                    Action::TurnOff(i)
                },
                Command::NoAction => self.advance(i, cfg.duration),
            },
            _ => {
                self.phase = Phase::Stopped;
                Action::Stop
            },
        }
    }

    /// The current actuator has been switched.
    pub fn on_switched(&mut self, cfg: &Config) -> (a: Action)
        ensures
            final(self).actuators == old(self).actuators,
            match old(self).phase {
                Phase::Actuating(i) => (final(self).phase, a) == after_actuator(
                    i,
                    old(self).actuators,
                    cfg.duration,
                ),
                _ => final(self).phase == Phase::Stopped && a == Action::Stop,
            },
    {
        match self.phase {
            Phase::Actuating(i) => self.advance(i, cfg.duration),
            _ => {
                self.phase = Phase::Stopped;
                Action::Stop
            },
        }
    }

    /// The poll interval has elapsed: the next cycle starts with a reload.
    pub fn on_woke(&mut self) -> (a: Action)
        ensures
            final(self).actuators == old(self).actuators,
            old(self).phase == Phase::Sleeping ==> final(self).phase == Phase::Reloading && a
                == Action::Reload,
            old(self).phase != Phase::Sleeping ==> final(self).phase == Phase::Stopped && a
                == Action::Stop,
    {
        if self.phase == Phase::Sleeping {
            self.phase = Phase::Reloading;
            Action::Reload
        } else {
            self.phase = Phase::Stopped;
            Action::Stop
        }
    }

    /// A gateway call failed, or a stop was requested: the loop ends.
    pub fn on_stop(&mut self) -> (a: Action)
        ensures
            final(self).actuators == old(self).actuators,
            final(self).phase == Phase::Stopped,
            a == Action::Stop,
    {
        self.phase = Phase::Stopped;
        Action::Stop
    }
}

} // verus!
