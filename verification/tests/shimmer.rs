use shimmer_granular::shimmer::{
    DelayMode, GateAction, ShimmerGate, MODE_MID_SIDE, MODE_PING_PONG, MODE_STEREO,
};

#[test]
fn delay_modes() {
    assert_eq!(DelayMode::from_param(MODE_STEREO), DelayMode::Stereo);
    assert_eq!(DelayMode::from_param(MODE_PING_PONG), DelayMode::PingPong);
    assert_eq!(DelayMode::from_param(MODE_MID_SIDE), DelayMode::MidSide);
    assert_eq!(DelayMode::from_param(3), DelayMode::Stereo);
    assert_eq!(DelayMode::from_param(-1), DelayMode::Stereo);
}

#[test]
fn gate_resets_once_when_switched_off() {
    let mut g = ShimmerGate::new();
    assert_eq!(g.step(true), GateAction { reset: false, run: true });
    assert_eq!(g.step(false), GateAction { reset: true, run: false });
    assert_eq!(g.step(false), GateAction { reset: false, run: false });
    assert_eq!(g.step(true), GateAction { reset: false, run: true });
    assert_eq!(g.step(false), GateAction { reset: true, run: false });
}

#[test]
fn fresh_gate_counts_as_on() {
    let mut g = ShimmerGate::new();
    assert_eq!(g.step(false), GateAction { reset: true, run: false });
    g.reset();
    assert_eq!(g.step(false), GateAction { reset: true, run: false });
}

#[test]
fn mode_buttons_round_trip() {
    let modes = DelayMode::all();
    assert_eq!(modes, [DelayMode::Stereo, DelayMode::PingPong, DelayMode::MidSide]);
    let labels: Vec<&str> = modes.iter().map(|m| m.label()).collect();
    assert_eq!(labels, vec!["Stereo", "Ping Pong", "Mid/Side"]);
    let params: Vec<i32> = modes.iter().map(|m| m.param()).collect();
    assert_eq!(params, vec![0, 1, 2]);
    for m in modes {
        assert_eq!(DelayMode::from_param(m.param()), m);
    }
}
