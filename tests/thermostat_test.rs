use hamrothermostat::config::{Config, Key, Source};
use hamrothermostat::text::Temperature;
use hamrothermostat::{
    decide, first_sensor_reading, thermostat, Action, ChildDevice, Command, ControlLoop, Phase,
};

fn t(hundredths: i64) -> Temperature {
    Temperature { hundredths }
}

fn cfg(min: &str, max: &str, enabled: &str, secs: &str) -> Config {
    let mut src = Source::new();
    src.insert(Key::TapoUser, "user".to_string());
    src.insert(Key::TapoPassword, "SECRET-REDACTED".to_string());
    src.insert(Key::HubIp, "10.0.0.2".to_string());
    src.insert(Key::Thermo1Ip, "10.0.0.3".to_string());
    src.insert(Key::Thermo2Ip, "10.0.0.4".to_string());
    src.insert(Key::MinTemp, min.to_string());
    src.insert(Key::MaxTemp, max.to_string());
    src.insert(Key::Duration, secs.to_string());
    src.insert(Key::ThermostatEnabled, enabled.to_string());
    Config::load(&src).unwrap()
}

#[test]
fn disabled_always_off() {
    for (r, lo, hi) in [(2500, 1800, 2200), (1500, 1800, 2200), (2000, 2000, 2000), (0, 3000, -100)] {
        assert_eq!(decide(t(r), false, t(lo), t(hi)), Command::Off);
    }
}

#[test]
fn enabled_thresholds_18_22() {
    assert_eq!(decide(t(2500), true, t(1800), t(2200)), Command::On);
    assert_eq!(decide(t(1500), true, t(1800), t(2200)), Command::Off);
    assert_eq!(decide(t(2000), true, t(1800), t(2200)), Command::On);
    assert_eq!(decide(t(1800), true, t(1800), t(2200)), Command::Off);
}

#[test]
fn equal_thresholds_no_action() {
    assert_eq!(decide(t(2000), true, t(2000), t(2000)), Command::NoAction);
    assert_eq!(decide(t(2001), true, t(2000), t(2000)), Command::On);
    assert_eq!(decide(t(1999), true, t(2000), t(2000)), Command::Off);
}

#[test]
fn first_sensor_is_used() {
    let children = vec![
        ChildDevice::Other,
        ChildDevice::TemperatureSensor(t(1500)),
        ChildDevice::TemperatureSensor(t(2500)),
    ];
    assert_eq!(first_sensor_reading(&children), Some(t(1500)));
    assert_eq!(first_sensor_reading(&vec![ChildDevice::Other]), None);
    assert_eq!(first_sensor_reading(&vec![]), None);
}

#[test]
fn no_sensor_no_action() {
    let c = cfg("18", "22", "true", "5");
    assert_eq!(thermostat(&vec![ChildDevice::Other], &c), Command::NoAction);
    let off = cfg("18", "22", "false", "5");
    assert_eq!(thermostat(&vec![], &off), Command::NoAction);
}

#[test]
fn end_to_end_cycle_turns_on_then_sleeps() {
    let c = cfg("18", "22", "true", "5");
    let children = vec![ChildDevice::Other, ChildDevice::TemperatureSensor(t(2500))];
    assert_eq!(thermostat(&children, &c), Command::On);
    assert_eq!(c.duration, 5);
}

#[test]
fn disabled_config_turns_off_with_sensor() {
    let c = cfg("18", "22", "FALSE", "5");
    let children = vec![ChildDevice::TemperatureSensor(t(1000))];
    assert_eq!(thermostat(&children, &c), Command::Off);
}

#[test]
fn end_to_end_loop_turns_on_then_sleeps_five_seconds() {
    let c = cfg("18", "22", "true", "5");
    let hot = vec![ChildDevice::TemperatureSensor(t(2500))];
    let (mut lp, a) = ControlLoop::new(1);
    assert_eq!(a, Action::Reload);
    assert_eq!(lp.on_reloaded(&c), Action::ListChildren(0));
    assert_eq!(lp.on_listed(&hot, &c), Action::TurnOn(0));
    assert_eq!(lp.on_switched(&c), Action::Sleep(5));
    assert_eq!(lp.on_woke(), Action::Reload);
    assert_eq!(lp.phase, Phase::Reloading);
}

#[test]
fn loop_visits_each_actuator_and_skips_without_sensor() {
    let c = cfg("18", "22", "true", "30");
    let (mut lp, _) = ControlLoop::new(2);
    assert_eq!(lp.on_reloaded(&c), Action::ListChildren(0));
    assert_eq!(lp.on_listed(&vec![ChildDevice::Other], &c), Action::ListChildren(1));
    let cold = vec![ChildDevice::TemperatureSensor(t(1500))];
    assert_eq!(lp.on_listed(&cold, &c), Action::TurnOff(1));
    assert_eq!(lp.on_switched(&c), Action::Sleep(30));
}

#[test]
fn loop_without_actuators_just_sleeps() {
    let c = cfg("18", "22", "true", "9");
    let (mut lp, _) = ControlLoop::new(0);
    assert_eq!(lp.on_reloaded(&c), Action::Sleep(9));
}

#[test]
fn loop_stops_on_out_of_turn_event_or_failure() {
    let c = cfg("18", "22", "true", "5");
    let (mut lp, _) = ControlLoop::new(1);
    assert_eq!(lp.on_woke(), Action::Stop);
    assert_eq!(lp.phase, Phase::Stopped);
    let (mut lp2, _) = ControlLoop::new(1);
    lp2.on_reloaded(&c);
    assert_eq!(lp2.on_stop(), Action::Stop);
    assert_eq!(lp2.phase, Phase::Stopped);
}
