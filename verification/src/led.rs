//! The profile of the LED controller: its service and endpoints, the
//! commands it takes, and where each of its notifications goes.

use crate::transmission::msg::{notice_of, Notice, NotifyMessage};
use crate::transmission::{DataFromBytes, Transmission};
use vstd::prelude::*;
use vstd::string::StringSliceAdditionalSpecFns;

verus! {

/// UUID of the controller's service.
pub const LED_SERVICE: u128 = 0xe572775c_0df9_4b44_926b_b692e31d6971;

/// UUID of the endpoint that carries the scene, in chunked transfers.
pub const SCENE_CHARACTERISTIC: u128 = 0xc7d7ee2f_c84b_4f5c_a2a4_e642c97a880d;

/// UUID of the endpoint that takes commands.
pub const CONTROL_CHARACTERISTIC: u128 = 0xbc00dad8_280c_49f9_9efd_3a8137594ef2;

/// UUID of the endpoint that reports the controller's state.
pub const STATE_CHARACTERISTIC: u128 = 0xe192efae_9626_4767_8a27_b96cb9753e10;

/// UUID of the endpoint that takes the time of day.
pub const TIME_CHARACTERISTIC: u128 = 0x9ae95835_6543_4bd0_8aec_6c48fe9fd989;

/// UUID of the endpoint that carries the timer tasks, in chunked
/// transfers.
pub const TIME_TASK_CHARACTERISTIC: u128 = 0xf144af69_9642_97e1_d712_9448d1b450a1;

/// A command to the controller.
#[derive(Clone, Copy, Debug, PartialEq, Eq)]
pub enum LedCommand {
    Open,
    Close,
    Reset,
}

impl LedCommand {
    /// The bytes written to the control endpoint: the command's name in
    /// ASCII.
    pub open spec fn wire(self) -> Seq<u8> {
        match self {
            LedCommand::Open => seq![0x6fu8, 0x70u8, 0x65u8, 0x6eu8],
            LedCommand::Close => seq![0x63u8, 0x6cu8, 0x6fu8, 0x73u8, 0x65u8],
            LedCommand::Reset => seq![0x72u8, 0x65u8, 0x73u8, 0x65u8, 0x74u8],
        }
    }

    /// The command whose name has the bytes `name`, if there is one.
    pub open spec fn named(name: Seq<u8>) -> Option<LedCommand> {
        if name == LedCommand::Open.wire() {
            Some(LedCommand::Open)
        } else if name == LedCommand::Close.wire() {
            Some(LedCommand::Close)
        } else if name == LedCommand::Reset.wire() {
            Some(LedCommand::Reset)
        } else {
            None
        }
    }

    /// Every command is found again by its own name.
    pub proof fn lemma_named_wire(self)
        ensures
            LedCommand::named(self.wire()) == Some(self),
    {
        assert(LedCommand::Open.wire().len() == 4);
        assert(LedCommand::Close.wire()[0] == 0x63u8);
        assert(LedCommand::Reset.wire()[0] == 0x72u8);
    }

    /// The bytes to write to the control endpoint.
    pub fn bytes(self) -> (r: Vec<u8>)
        ensures
            r@ == self.wire(),
    {
        let mut out: Vec<u8> = Vec::new();
        match self {
            LedCommand::Open => {
                out.push(0x6f);
                out.push(0x70);
                out.push(0x65);
                out.push(0x6e);
            },
            LedCommand::Close => {
                out.push(0x63);
                out.push(0x6c);
                out.push(0x6f);
                out.push(0x73);
                out.push(0x65);
            },
            LedCommand::Reset => {
                out.push(0x72);
                out.push(0x65);
                out.push(0x73);
                out.push(0x65);
                out.push(0x74);
            },
        }
        assert(out@ =~= self.wire());
        out
    }

    /// The command called `name`: `open`, `close` or `reset`. Any other
    /// name is no command.
    pub fn from_name(name: &str) -> (r: Option<LedCommand>)
        ensures
            r == LedCommand::named(name.spec_bytes()),
    {
        let given = name.as_bytes();
        if same_bytes(given, LedCommand::Open.bytes().as_slice()) {
            Some(LedCommand::Open)
        } else if same_bytes(given, LedCommand::Close.bytes().as_slice()) {
            Some(LedCommand::Close)
        } else if same_bytes(given, LedCommand::Reset.bytes().as_slice()) {
            Some(LedCommand::Reset)
        } else {
            None
        }
    }
}

/// Whether two byte strings are equal.
fn same_bytes(a: &[u8], b: &[u8]) -> (r: bool)
    ensures
        r == (a@ == b@),
{
    if a.len() != b.len() {
        return false;
    }
    let mut i: usize = 0;
    while i < a.len()
        invariant
            a@.len() == b@.len(),
            i <= a@.len(),
            forall|k: int| 0 <= k < i ==> a@[k] == b@[k],
        decreases a@.len() - i,
    {
        if a[i] != b[i] {
            return false;
        }
        i = i + 1;
    }
    assert(a@ =~= b@);
    true
}

/// The endpoints of the controller, by what they are for.
#[derive(Clone, Copy, Debug, PartialEq, Eq)]
pub enum Endpoint {
    Scene,
    Control,
    State,
    Time,
    TimeTask,
}

impl Endpoint {
    /// The UUID under which the controller offers this endpoint.
    pub open spec fn spec_uuid(self) -> u128 {
        match self {
            Endpoint::Scene => SCENE_CHARACTERISTIC,
            Endpoint::Control => CONTROL_CHARACTERISTIC,
            Endpoint::State => STATE_CHARACTERISTIC,
            Endpoint::Time => TIME_CHARACTERISTIC,
            Endpoint::TimeTask => TIME_TASK_CHARACTERISTIC,
        }
    }

    /// The UUID under which the controller offers this endpoint.
    #[verifier::when_used_as_spec(spec_uuid)]
    pub fn uuid(self) -> (r: u128)
        ensures
            r == self.spec_uuid(),
    {
        match self {
            Endpoint::Scene => SCENE_CHARACTERISTIC,
            Endpoint::Control => CONTROL_CHARACTERISTIC,
            Endpoint::State => STATE_CHARACTERISTIC,
            Endpoint::Time => TIME_CHARACTERISTIC,
            Endpoint::TimeTask => TIME_TASK_CHARACTERISTIC,
        }
    }

    /// The name under which changes behind this endpoint are announced to
    /// the application.
    pub fn topic(self) -> (r: &'static str)
        ensures
            r@ == match self {
                Endpoint::Scene => "scene"@,
                Endpoint::Control => "control"@,
                Endpoint::State => "state"@,
                Endpoint::Time => "time"@,
                Endpoint::TimeTask => "time-tasks"@,
            },
    {
        match self {
            Endpoint::Scene => "scene",
            Endpoint::Control => "control",
            Endpoint::State => "state",
            Endpoint::Time => "time",
            Endpoint::TimeTask => "time-tasks",
        }
    }
}

/// A service as discovery reports it: its UUID and the UUIDs of its
/// endpoints.
#[derive(Debug, PartialEq, Eq)]
pub struct Service {
    pub uuid: u128,
    pub characteristics: Vec<u128>,
}

/// The endpoints of the first service in `services` that is the
/// controller's, if there is one.
pub open spec fn led_characteristics(services: Seq<Service>) -> Option<Seq<u128>>
    decreases services.len(),
{
    if services.len() == 0 {
        None
    } else if services[0].uuid == LED_SERVICE {
        Some(services[0].characteristics@)
    } else {
        led_characteristics(services.drop_first())
    }
}

/// Whether the controller's service is among `services` and offers the
/// endpoint.
pub open spec fn offers(services: Seq<Service>, endpoint: Endpoint) -> bool {
    match led_characteristics(services) {
        Some(characteristics) => characteristics.contains(endpoint.spec_uuid()),
        None => false,
    }
}

/// The first endpoint, in the order scene, control, state, time, timer
/// tasks, that `services` do not offer.
pub open spec fn missing(services: Seq<Service>) -> Option<Endpoint> {
    if !offers(services, Endpoint::Scene) {
        Some(Endpoint::Scene)
    } else if !offers(services, Endpoint::Control) {
        Some(Endpoint::Control)
    } else if !offers(services, Endpoint::State) {
        Some(Endpoint::State)
    } else if !offers(services, Endpoint::Time) {
        Some(Endpoint::Time)
    } else if !offers(services, Endpoint::TimeTask) {
        Some(Endpoint::TimeTask)
    } else {
        None
    }
}

/// Why a peripheral is no LED controller.
#[derive(Clone, Copy, Debug, PartialEq, Eq)]
pub enum LedError {
    /// The peripheral does not offer this endpoint.
    NotFound(Endpoint),
}

/// A connected controller: the endpoints it has been found to offer.
#[derive(Clone, Copy, Debug, PartialEq, Eq)]
pub struct Led {
    pub scene_transmission: Transmission,
    pub control_characteristic: u128,
    pub state_characteristic: u128,
    pub time_characteristic: u128,
    pub time_task_transmission: Transmission,
}

/// Where a notification of the controller goes.
#[derive(Debug, PartialEq, Eq)]
pub enum Routing {
    /// The controller's state changed; the notification's bytes are the
    /// new state, as text.
    StateChanged,
    /// The value behind a chunked endpoint changed: read it anew.
    Reload(Endpoint),
    /// The controller reported an error; the bytes are its message.
    PeerError(Vec<u8>),
    /// Nothing to do.
    Ignore,
}

/// The mathematical value of a [`Routing`].
pub enum Route {
    StateChanged,
    Reload(Endpoint),
    PeerError(Seq<u8>),
    Ignore,
}

impl View for Routing {
    type V = Route;

    open spec fn view(&self) -> Route {
        match *self {
            Routing::StateChanged => Route::StateChanged,
            Routing::Reload(endpoint) => Route::Reload(endpoint),
            Routing::PeerError(message) => Route::PeerError(message@),
            Routing::Ignore => Route::Ignore,
        }
    }
}

fn first_led_service(services: &Vec<Service>) -> (r: Option<usize>)
    ensures
        match r {
            Some(i) => i < services@.len() && led_characteristics(services@) == Some(
                services@[i as int].characteristics@,
            ),
            None => led_characteristics(services@) is None,
        },
{
    let mut i: usize = 0;
    assert(services@.skip(0) =~= services@);
    while i < services.len()
        invariant
            i <= services@.len(),
            led_characteristics(services@) == led_characteristics(services@.skip(i as int)),
        decreases services@.len() - i,
    {
        assert(services@.skip(i as int)[0] == services@[i as int]);
        if services[i].uuid == LED_SERVICE {
            return Some(i);
        }
        assert(services@.skip(i as int).drop_first() =~= services@.skip(i as int + 1));
        i = i + 1;
    }
    None
}

fn holds(characteristics: &Vec<u128>, uuid: u128) -> (r: bool)
    ensures
        r == characteristics@.contains(uuid),
{
    let mut i: usize = 0;
    while i < characteristics.len()
        invariant
            i <= characteristics@.len(),
            forall|k: int| 0 <= k < i ==> characteristics@[k] != uuid,
        decreases characteristics@.len() - i,
    {
        if characteristics[i] == uuid {
            return true;
        }
        i = i + 1;
    }
    false
}

impl Led {
    /// The controller with every endpoint under its own UUID.
    pub open spec fn profile() -> Led {
        Led {
            scene_transmission: Transmission { characteristic: SCENE_CHARACTERISTIC },
            control_characteristic: CONTROL_CHARACTERISTIC,
            state_characteristic: STATE_CHARACTERISTIC,
            time_characteristic: TIME_CHARACTERISTIC,
            time_task_transmission: Transmission { characteristic: TIME_TASK_CHARACTERISTIC },
        }
    }

    /// What a message on a chunked endpoint asks for outside a transfer.
    pub open spec fn refresh(endpoint: Endpoint, notice: Notice) -> Route {
        match notice {
            Notice::DataUpdate => Route::Reload(endpoint),
            Notice::Error(message) => Route::PeerError(message),
            _ => Route::Ignore,
        }
    }

    /// Where the notification `value` of the endpoint `uuid` goes.
    pub open spec fn route(self, uuid: u128, value: Seq<u8>) -> Route {
        if uuid == self.state_characteristic {
            Route::StateChanged
        } else if uuid == self.scene_transmission.characteristic {
            Led::refresh(Endpoint::Scene, notice_of(value))
        } else if uuid == self.time_task_transmission.characteristic {
            Led::refresh(Endpoint::TimeTask, notice_of(value))
        } else {
            Route::Ignore
        }
    }

    /// Takes what service discovery found on a peripheral. The peripheral
    /// is a controller if the first service with the controller's UUID
    /// offers all five endpoints; otherwise the error names the first one
    /// that is not there.
    pub fn new(services: &Vec<Service>) -> (r: Result<Led, LedError>)
        ensures
            r == match missing(services@) {
                Some(endpoint) => Err::<Led, LedError>(LedError::NotFound(endpoint)),
                None => Ok(Led::profile()),
            },
    {
        let found = first_led_service(services);
        let at: usize = match found {
            Some(at) => at,
            None => {
                return Err(LedError::NotFound(Endpoint::Scene));
            },
        };
        let characteristics = &services[at].characteristics;
        if !holds(characteristics, SCENE_CHARACTERISTIC) {
            Err(LedError::NotFound(Endpoint::Scene))
        } else if !holds(characteristics, CONTROL_CHARACTERISTIC) {
            Err(LedError::NotFound(Endpoint::Control))
        } else if !holds(characteristics, STATE_CHARACTERISTIC) {
            Err(LedError::NotFound(Endpoint::State))
        } else if !holds(characteristics, TIME_CHARACTERISTIC) {
            Err(LedError::NotFound(Endpoint::Time))
        } else if !holds(characteristics, TIME_TASK_CHARACTERISTIC) {
            Err(LedError::NotFound(Endpoint::TimeTask))
        } else {
            Ok(
                Led {
                    scene_transmission: Transmission::new(SCENE_CHARACTERISTIC),
                    control_characteristic: CONTROL_CHARACTERISTIC,
                    state_characteristic: STATE_CHARACTERISTIC,
                    time_characteristic: TIME_CHARACTERISTIC,
                    time_task_transmission: Transmission::new(TIME_TASK_CHARACTERISTIC),
                },
            )
        }
    }

    /// Decides where the notification `value` of the endpoint `uuid`
    /// goes: a state report to the application, a change behind a chunked
    /// endpoint to a fresh read of it, a reported error to the
    /// application, and anything else nowhere.
    pub fn on_state(&self, uuid: u128, value: &[u8]) -> (r: Routing)
        ensures
            r@ == self.route(uuid, value@),
    {
        if uuid == self.state_characteristic {
            Routing::StateChanged
        } else if uuid == self.scene_transmission.characteristic {
            let (msg, _) = NotifyMessage::from_data(value);
            refresh(Endpoint::Scene, msg)
        } else if uuid == self.time_task_transmission.characteristic {
            let (msg, _) = NotifyMessage::from_data(value);
            refresh(Endpoint::TimeTask, msg)
        } else {
            Routing::Ignore
        }
    }
}

fn refresh(endpoint: Endpoint, msg: NotifyMessage) -> (r: Routing)
    ensures
        r@ == Led::refresh(endpoint, msg@),
{
    match msg {
        NotifyMessage::DataUpdate => Routing::Reload(endpoint),
        NotifyMessage::Error(message) => Routing::PeerError(message),
        _ => Routing::Ignore,
    }
}

} // verus!
