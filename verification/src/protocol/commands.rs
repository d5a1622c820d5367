//! Commands, by the part of the window manager they are for.
use vstd::prelude::*;

verus! {

#[derive(Clone, Copy, Debug, PartialEq, Eq, Structural)]
pub enum MetricsCommand {
    ShowTiming,
}

#[derive(Clone, Copy, Debug, PartialEq, Eq, Structural)]
pub enum AnimationEasing {
    EaseInOut,
    Linear,
    EaseInSine,
    EaseOutSine,
    EaseInOutSine,
    EaseInQuad,
    EaseOutQuad,
    EaseInOutQuad,
    EaseInCubic,
    EaseOutCubic,
    EaseInOutCubic,
    EaseInQuart,
    EaseOutQuart,
    EaseInOutQuart,
    EaseInQuint,
    EaseOutQuint,
    EaseInOutQuint,
    EaseInExpo,
    EaseOutExpo,
    EaseInOutExpo,
    EaseInCirc,
    EaseOutCirc,
    EaseInOutCirc,
}

impl Default for AnimationEasing {
    fn default() -> (easing: Self)
        ensures
            easing == AnimationEasing::EaseInOut,
    {
        AnimationEasing::EaseInOut
    }
}

/// A command from a client. Of the layout's, the reactor's and the configuration's own commands
/// nothing is read here.
#[derive(Debug)]
pub enum RiniCommand<L, R, C> {
    Layout(L),
    Metrics(MetricsCommand),
    Reactor(R),
    Config(C),
}

/// The part of [`RiniCommand`] the window manager itself executes; `Config` goes to the config actor
/// instead.
#[derive(Debug)]
pub enum Command<L, R> {
    Layout(L),
    Metrics(MetricsCommand),
    Reactor(R),
}

/// What the older clients send as JSON inside a JSON string.
#[derive(Debug)]
pub enum LegacyCommand<L, R, C> {
    Reactor(Command<L, R>),
    Config(C),
}

/// Whom a command is for.
#[derive(Debug)]
pub enum Addressee<L, R, C> {
    WindowManager(Command<L, R>),
    Config(C),
}

impl<L, R, C> RiniCommand<L, R, C> {
    /// Whom this command is for.
    pub open spec fn addressed(self) -> Addressee<L, R, C> {
        match self {
            RiniCommand::Layout(command) => Addressee::WindowManager(Command::Layout(command)),
            RiniCommand::Metrics(command) => Addressee::WindowManager(Command::Metrics(command)),
            RiniCommand::Reactor(command) => Addressee::WindowManager(Command::Reactor(command)),
            RiniCommand::Config(command) => Addressee::Config(command),
        }
    }

    /// Hands the command to whom it is for.
    pub fn address(self) -> (addressee: Addressee<L, R, C>)
        ensures
            addressee == self.addressed(),
    {
        match self {
            RiniCommand::Layout(command) => Addressee::WindowManager(Command::Layout(command)),
            RiniCommand::Metrics(command) => Addressee::WindowManager(Command::Metrics(command)),
            RiniCommand::Reactor(command) => Addressee::WindowManager(Command::Reactor(command)),
            RiniCommand::Config(command) => Addressee::Config(command),
        }
    }
}

/// The command an older client meant.
pub fn decode_legacy_command<L, R, C>(command: LegacyCommand<L, R, C>) -> (meant: RiniCommand<
    L,
    R,
    C,
>)
    ensures
        meant == decoded(command),
{
    match command {
        LegacyCommand::Config(command) => RiniCommand::Config(command),
        LegacyCommand::Reactor(Command::Layout(command)) => RiniCommand::Layout(command),
        LegacyCommand::Reactor(Command::Metrics(command)) => RiniCommand::Metrics(command),
        LegacyCommand::Reactor(Command::Reactor(command)) => RiniCommand::Reactor(command),
    }
}

/// The command an older client meant: the same one, without the layer around the window manager's.
pub open spec fn decoded<L, R, C>(command: LegacyCommand<L, R, C>) -> RiniCommand<L, R, C> {
    match command {
        LegacyCommand::Config(command) => RiniCommand::Config(command),
        LegacyCommand::Reactor(Command::Layout(command)) => RiniCommand::Layout(command),
        LegacyCommand::Reactor(Command::Metrics(command)) => RiniCommand::Metrics(command),
        LegacyCommand::Reactor(Command::Reactor(command)) => RiniCommand::Reactor(command),
    }
}

/// An older client's command reaches whom the client addressed: the configuration what was for the
/// configuration, the window manager the rest, unchanged.
pub proof fn a_legacy_command_reaches_its_addressee<L, R, C>(command: LegacyCommand<L, R, C>)
    ensures
        decoded(command).addressed() == match command {
            LegacyCommand::Config(c) => Addressee::<L, R, C>::Config(c),
            LegacyCommand::Reactor(c) => Addressee::<L, R, C>::WindowManager(c),
        },
{
}

/// The configuration's commands go to the configuration and all others to the window manager, each as
/// it is.
pub proof fn a_command_reaches_its_addressee<L, R, C>(
    layout: L,
    metrics: MetricsCommand,
    reactor: R,
    config: C,
)
    ensures
        RiniCommand::<L, R, C>::Layout(layout).addressed() == Addressee::<L, R, C>::WindowManager(
            Command::Layout(layout),
        ),
        RiniCommand::<L, R, C>::Metrics(metrics).addressed() == Addressee::<L, R, C>::WindowManager(
            Command::Metrics(metrics),
        ),
        RiniCommand::<L, R, C>::Reactor(reactor).addressed() == Addressee::<L, R, C>::WindowManager(
            Command::Reactor(reactor),
        ),
        RiniCommand::<L, R, C>::Config(config).addressed() == Addressee::<L, R, C>::Config(config),
{
}

/// An older client's command is decoded to the one it meant, and that is handed to whom it is for.
pub proof fn a_decoded_command_is_handed_on(
    command: LegacyCommand<u64, u64, u64>,
    meant: RiniCommand<u64, u64, u64>,
    addressee: Addressee<u64, u64, u64>,
)
    requires
        call_ensures(decode_legacy_command::<u64, u64, u64>, (command,), meant),
        call_ensures(RiniCommand::<u64, u64, u64>::address, (meant,), addressee),
    ensures
        command matches LegacyCommand::Config(c) ==> addressee == Addressee::<u64, u64, u64>::Config(
            c,
        ),
        command matches LegacyCommand::Reactor(c) ==> addressee
            == Addressee::<u64, u64, u64>::WindowManager(c),
{
}

} // verus!
