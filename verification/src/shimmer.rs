use vstd::prelude::*;

verus! {

/// Delay routing modes of the grain delay, as the mode parameter numbers them.
pub const MODE_STEREO: i32 = 0;
pub const MODE_PING_PONG: i32 = 1;
pub const MODE_MID_SIDE: i32 = 2;

/// How the grain delay routes its two lines.
#[derive(PartialEq, Eq, Structural, Clone, Copy, Debug)]
pub enum DelayMode {
    /// Left and right each feed back into themselves.
    Stereo,
    /// Each side's output feeds the other side's line.
    PingPong,
    /// The lines carry mid and side, the side line at three quarters of the time.
    MidSide,
}

/// The mode a parameter value selects: 1 is ping-pong, 2 is mid/side and
/// every other value is plain stereo.
pub open spec fn mode_of_param(mode: int) -> DelayMode {
    if mode == MODE_PING_PONG {
        DelayMode::PingPong
    } else if mode == MODE_MID_SIDE {
        DelayMode::MidSide
    } else {
        DelayMode::Stereo
    }
}

/// The parameter value that stands for a mode.
pub open spec fn param_of_mode(m: DelayMode) -> i32 {
    match m {
        DelayMode::Stereo => MODE_STEREO,
        DelayMode::PingPong => MODE_PING_PONG,
        DelayMode::MidSide => MODE_MID_SIDE,
    }
}

impl DelayMode {
    /// The mode a parameter value selects: 1 is ping-pong, 2 is mid/side and
    /// every other value is plain stereo.
    pub fn from_param(mode: i32) -> (r: Self)
        ensures
            r == mode_of_param(mode as int),
    {
        if mode == MODE_PING_PONG {
            DelayMode::PingPong
        } else if mode == MODE_MID_SIDE {
            DelayMode::MidSide
        } else {
            DelayMode::Stereo
        }
    }

    /// The parameter value a mode button sets.
    pub fn param(self) -> (r: i32)
        ensures
            r == param_of_mode(self),
    {
        match self {
            DelayMode::Stereo => MODE_STEREO,
            DelayMode::PingPong => MODE_PING_PONG,
            DelayMode::MidSide => MODE_MID_SIDE,
        }
    }

    /// The caption of the mode's button.
    pub fn label(self) -> (r: &'static str)
        ensures
            self == DelayMode::Stereo ==> r@ == "Stereo"@,
            self == DelayMode::PingPong ==> r@ == "Ping Pong"@,
            self == DelayMode::MidSide ==> r@ == "Mid/Side"@,
    {
        match self {
            DelayMode::Stereo => "Stereo",
            DelayMode::PingPong => "Ping Pong",
            DelayMode::MidSide => "Mid/Side",
        }
    }

    /// The modes in the order their buttons are laid out.
    pub fn all() -> (r: [DelayMode; 3])
        ensures
            r@ == seq![DelayMode::Stereo, DelayMode::PingPong, DelayMode::MidSide],
    {
        let r = [DelayMode::Stereo, DelayMode::PingPong, DelayMode::MidSide];
        assert(r@ =~= seq![DelayMode::Stereo, DelayMode::PingPong, DelayMode::MidSide]);
        r
    }
}

/// A mode button sets a parameter value that selects that same mode, and
/// distinct modes set distinct values.
pub proof fn lemma_mode_param_round_trip(m: DelayMode, n: DelayMode)
    ensures
        mode_of_param(param_of_mode(m) as int) == m,
        param_of_mode(m) == param_of_mode(n) ==> m == n,
{
}

/// What one sample of the shimmer branch must do.
#[derive(PartialEq, Eq, Structural, Clone, Copy, Debug)]
pub struct GateAction {
    /// Silence the grain pools, the grain delay and the regeneration state.
    pub reset: bool,
    /// Run the pitched grains, the grain delay and the regeneration.
    pub run: bool,
}

/// Remembers whether the shimmer branch was on at the previous sample, so that
/// switching it off clears its state exactly once.
pub struct ShimmerGate {
    was_on: bool,
}

impl ShimmerGate {
    /// Whether the branch was on at the previous sample.
    pub closed spec fn was_on(&self) -> bool {
        self.was_on
    }

    /// A gate that treats the branch as having been on.
    pub fn new() -> (r: Self)
        ensures
            r.was_on(),
    {
        ShimmerGate { was_on: true }
    }

    /// Returns to the initial state: the branch counts as having been on.
    pub fn reset(&mut self)
        ensures
            final(self).was_on(),
    {
        self.was_on = true;
    }

    /// Decides one sample: the branch runs exactly when `on`, and its state is
    /// cleared exactly when it has just been switched off.
    pub fn step(&mut self, on: bool) -> (r: GateAction)
        ensures
            r.run == on,
            r.reset == (!on && old(self).was_on()),
            final(self).was_on() == on,
    {
        let r = GateAction { reset: !on && self.was_on, run: on };
        self.was_on = on;
        r
    }
}

/// Switching the branch off clears its state once: a second sample with the
/// branch still off asks for no further reset.
pub proof fn lemma_reset_once(g0: ShimmerGate, a1: GateAction, g1: ShimmerGate, a2: GateAction)
    requires
        a1.run == false,
        a1.reset == (!a1.run && g0.was_on()),
        g1.was_on() == a1.run,
        a2.run == false,
        a2.reset == (!a2.run && g1.was_on()),
    ensures
        a1.reset == g0.was_on(),
        !a2.reset,
{
}

} // verus!
