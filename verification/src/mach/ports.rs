//! Ports: looking the service up, opening a port for replies, and giving rights back.
use vstd::prelude::*;

use crate::mach::{KERN_SUCCESS, MACH_PORT_QLIMIT_LARGE};
use crate::mach::framing::Outgoing;

verus! {

/// A call to be made to the kernel on the way through an exchange.
#[derive(Debug)]
pub enum Call {
    /// Make a port with a receive right.
    Allocate,
    /// Set how many messages may wait on a port. What comes of it changes nothing.
    LimitQueue { port: u32, limit: u32 },
    /// Add a right to send to a port that is being received on.
    InsertSendRight { port: u32 },
    /// Send a message.
    Send(Outgoing),
    /// Wait for a message on a port.
    Receive { port: u32 },
    /// Give up a receive right. What comes of it changes nothing.
    DropReceive { port: u32 },
    /// Give up a port's name. What comes of it changes nothing.
    Deallocate { port: u32 },
}

/// What came of a call: the kernel's result, and the port it made where it made one.
#[derive(Clone, Copy, Debug, PartialEq, Eq, Structural)]
pub struct Answer {
    pub result: i32,
    pub port: u32,
}

impl Answer {
    pub open spec fn succeeded(self) -> bool {
        self.result == 0
    }

    pub fn is_success(&self) -> (ok: bool)
        ensures
            ok == self.succeeded(),
    {
        self.result == KERN_SUCCESS
    }
}

/// The port of the service, from what came of asking for the bootstrap port and of looking the
/// service up there; zero when either failed.
pub fn mach_get_bs_port(bootstrap: i32, look_up: i32, service_port: u32) -> (port: u32)
    ensures
        port == if bootstrap == 0 && look_up == 0 {
            service_port
        } else {
            0
        },
{
    if bootstrap != KERN_SUCCESS {
        return 0;
    }
    if look_up != KERN_SUCCESS {
        return 0;
    }
    service_port
}

/// Whether another process answers under the service's name.
pub fn is_mach_server_registered(service_port: u32) -> (registered: bool)
    ensures
        registered == (service_port != 0),
{
    service_port != 0
}

/// Where the opening of a reply port stands: the call that is out, or how it ended.
#[derive(Clone, Copy, Debug, PartialEq, Eq, Structural)]
pub enum OpeningStage {
    Allocating,
    Limiting,
    Inserting,
    Dropping,
    Deallocating,
    Open,
    Failed,
}

/// The opening of a port for replies: made, limited, and given a right to send to it; given back
/// when that right cannot be had.
#[derive(Clone, Copy, Debug, PartialEq, Eq, Structural)]
pub struct Opening {
    pub limit: u32,
    pub port: u32,
    pub stage: OpeningStage,
}

impl Opening {
    pub fn new(limit: u32) -> (opening: Self)
        ensures
            opening == (Opening { limit, port: 0, stage: OpeningStage::Allocating }),
    {
        Opening { limit, port: 0, stage: OpeningStage::Allocating }
    }

    /// The call that is out; none once the opening has ended.
    pub open spec fn calls(self, call: Option<Call>) -> bool {
        match self.stage {
            OpeningStage::Allocating => call == Some(Call::Allocate),
            OpeningStage::Limiting => call == Some(
                Call::LimitQueue { port: self.port, limit: self.limit },
            ),
            OpeningStage::Inserting => call == Some(Call::InsertSendRight { port: self.port }),
            OpeningStage::Dropping => call == Some(Call::DropReceive { port: self.port }),
            OpeningStage::Deallocating => call == Some(Call::Deallocate { port: self.port }),
            OpeningStage::Open | OpeningStage::Failed => call is None,
        }
    }

    /// The opening once its call has been answered.
    pub open spec fn after(self, answer: Answer) -> Self {
        match self.stage {
            OpeningStage::Allocating => if answer.succeeded() {
                Opening { port: answer.port, stage: OpeningStage::Limiting, ..self }
            } else {
                Opening { stage: OpeningStage::Failed, ..self }
            },
            OpeningStage::Limiting => Opening { stage: OpeningStage::Inserting, ..self },
            OpeningStage::Inserting => if answer.succeeded() {
                Opening { stage: OpeningStage::Open, ..self }
            } else {
                Opening { stage: OpeningStage::Dropping, ..self }
            },
            OpeningStage::Dropping => Opening { stage: OpeningStage::Deallocating, ..self },
            OpeningStage::Deallocating => Opening { stage: OpeningStage::Failed, ..self },
            OpeningStage::Open | OpeningStage::Failed => self,
        }
    }

    /// Whether a port has been made and not yet given back.
    pub open spec fn holds(self) -> bool {
        match self.stage {
            OpeningStage::Allocating | OpeningStage::Failed => false,
            _ => true,
        }
    }

    /// The call to make next.
    pub fn call(&self) -> (call: Option<Call>)
        ensures
            self.calls(call),
    {
        match self.stage {
            OpeningStage::Allocating => Some(Call::Allocate),
            OpeningStage::Limiting => Some(
                Call::LimitQueue { port: self.port, limit: self.limit },
            ),
            OpeningStage::Inserting => Some(Call::InsertSendRight { port: self.port }),
            OpeningStage::Dropping => Some(Call::DropReceive { port: self.port }),
            OpeningStage::Deallocating => Some(Call::Deallocate { port: self.port }),
            OpeningStage::Open | OpeningStage::Failed => None,
        }
    }

    /// Takes what came of the call.
    pub fn answered(&mut self, answer: Answer)
        ensures
            *final(self) == old(self).after(answer),
    {
        match self.stage {
            OpeningStage::Allocating => {
                if answer.is_success() {
                    self.port = answer.port;
                    self.stage = OpeningStage::Limiting;
                } else {
                    self.stage = OpeningStage::Failed;
                }
            },
            OpeningStage::Limiting => {
                self.stage = OpeningStage::Inserting;
            },
            OpeningStage::Inserting => {
                if answer.is_success() {
                    self.stage = OpeningStage::Open;
                } else {
                    self.stage = OpeningStage::Dropping;
                }
            },
            OpeningStage::Dropping => {
                self.stage = OpeningStage::Deallocating;
            },
            OpeningStage::Deallocating => {
                self.stage = OpeningStage::Failed;
            },
            OpeningStage::Open | OpeningStage::Failed => {},
        }
    }
}

/// Opens a port for the replies of many messages, with a long queue.
pub fn mach_allocate_reply_port() -> (opening: Opening)
    ensures
        opening == (Opening { limit: 1024, port: 0, stage: OpeningStage::Allocating }),
{
    Opening::new(MACH_PORT_QLIMIT_LARGE)
}

/// The calls that give a reply port back: its receive right, then its name. None for the null port.
pub fn mach_deallocate_reply_port(reply_port: u32) -> (calls: Vec<Call>)
    ensures
        reply_port == 0 ==> calls@ == Seq::<Call>::empty(),
        reply_port != 0 ==> calls@ == seq![
            Call::DropReceive { port: reply_port },
            Call::Deallocate { port: reply_port },
        ],
{
    let mut calls: Vec<Call> = Vec::new();
    if reply_port != 0 {
        calls.push(Call::DropReceive { port: reply_port });
        calls.push(Call::Deallocate { port: reply_port });
    }
    calls
}

/// By how much the references to a send right are to change for it to be retained; nothing for the
/// null port.
pub fn mach_retain_send_right(port: u32) -> (delta: Option<i32>)
    ensures
        delta == if port == 0 {
            None
        } else {
            Some(1i32)
        },
{
    if port == 0 {
        None
    } else {
        Some(1)
    }
}

/// By how much the references to a send right are to change for it to be released; nothing for the
/// null port.
pub fn mach_release_send_right(port: u32) -> (delta: Option<i32>)
    ensures
        delta == if port == 0 {
            None
        } else {
            Some(-1i32)
        },
{
    if port == 0 {
        None
    } else {
        Some(-1)
    }
}

/// The call that waits for a message on a reply port; none for the null port.
pub fn mach_receive_message_on_port(reply_port: u32) -> (call: Option<Call>)
    ensures
        call == if reply_port == 0 {
            None
        } else {
            Some(Call::Receive { port: reply_port })
        },
{
    if reply_port == 0 {
        None
    } else {
        Some(Call::Receive { port: reply_port })
    }
}

/// A port is held from the answer that made it to the call that gives it back, whatever the answers:
/// an opening that failed holds none, and one that is open holds the port it made.
pub proof fn a_failed_opening_holds_no_port(opening: Opening, answer: Answer)
    ensures
        opening.stage is Failed ==> !opening.holds(),
        opening.stage is Open ==> opening.holds() && opening.after(answer) == opening,
        !opening.holds() && opening.after(answer).holds() ==> opening.stage is Allocating
            && answer.succeeded() && opening.after(answer).port == answer.port,
        opening.holds() && !opening.after(answer).holds() ==> opening.stage is Deallocating
            && opening.after(answer).port == opening.port,
        opening.holds() ==> opening.after(answer).port == opening.port,
{
}

/// A port is opened in order: it is made, its queue limited, and a right to send to it added, all on
/// the port that was made; it is then open. What comes of limiting the queue does not matter.
pub proof fn a_port_is_opened_in_order(limit: u32, made: Answer, limited: Answer, given: Answer)
    requires
        made.succeeded(),
    ensures
        ({
            let start = Opening { limit, port: 0, stage: OpeningStage::Allocating };
            let second = start.after(made);
            let third = second.after(limited);
            let last = third.after(given);
            &&& start.calls(Some(Call::Allocate))
            &&& second.calls(Some(Call::LimitQueue { port: made.port, limit }))
            &&& third.calls(Some(Call::InsertSendRight { port: made.port }))
            &&& given.succeeded() ==> last.stage == OpeningStage::Open && last.calls(None)
                && last.port == made.port && last.holds()
            &&& !given.succeeded() ==> last.calls(Some(Call::DropReceive { port: made.port }))
        }),
{
}

/// A port that cannot be sent to is given back, its receive right first and its name after, and the
/// opening has failed; so it has at once where no port could be made.
pub proof fn a_port_without_a_right_is_given_back(
    limit: u32,
    port: u32,
    refused: Answer,
    dropped: Answer,
    gone: Answer,
)
    requires
        !refused.succeeded(),
    ensures
        ({
            let inserting = Opening { limit, port, stage: OpeningStage::Inserting };
            let dropping = inserting.after(refused);
            let deallocating = dropping.after(dropped);
            let last = deallocating.after(gone);
            &&& dropping.calls(Some(Call::DropReceive { port }))
            &&& deallocating.calls(Some(Call::Deallocate { port }))
            &&& last.stage == OpeningStage::Failed && last.calls(None) && !last.holds()
        }),
        (Opening { limit, port: 0, stage: OpeningStage::Allocating }).after(refused).stage
            == OpeningStage::Failed,
{
}

/// The service is found only where the bootstrap port and the name both were; the null port is no
/// service. The calls on a reply port are made on that port, and none on the null port.
pub proof fn no_call_is_made_on_the_null_port(
    bootstrap: i32,
    look_up: i32,
    port: u32,
    found: u32,
    registered: bool,
    given_back: Vec<Call>,
    retained: Option<i32>,
    released: Option<i32>,
    waiting: Option<Call>,
    opening: Opening,
)
    requires
        call_ensures(mach_get_bs_port, (bootstrap, look_up, port), found),
        call_ensures(is_mach_server_registered, (found,), registered),
        call_ensures(mach_deallocate_reply_port, (port,), given_back),
        call_ensures(mach_retain_send_right, (port,), retained),
        call_ensures(mach_release_send_right, (port,), released),
        call_ensures(mach_receive_message_on_port, (port,), waiting),
        call_ensures(mach_allocate_reply_port, (), opening),
    ensures
        registered <==> bootstrap == 0 && look_up == 0 && port != 0,
        registered ==> found == port,
        port == 0 ==> given_back@.len() == 0 && retained is None && released is None
            && waiting is None,
        port != 0 ==> {
            &&& given_back@.len() == 2 && given_back@[0] == (Call::DropReceive { port })
                && given_back@[1] == (Call::Deallocate { port })
            &&& retained is Some && released is Some && retained->0 == 1 && retained->0
                + released->0 == 0
            &&& waiting == Some(Call::Receive { port })
        },
        opening.limit == 1024 && opening.stage == OpeningStage::Allocating && !opening.holds(),
{
}

/// An answer is a success when the kernel says zero.
pub proof fn zero_is_success(answer: Answer)
    ensures
        answer.succeeded() <==> answer.result == 0,
{
}

} // verus!
