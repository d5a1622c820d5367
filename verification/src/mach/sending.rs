//! Sending a message and, where an answer is wanted, waiting for it on a port of its own.
use vstd::prelude::*;

use crate::mach::framing::{addressed, request_message, sendable};
use crate::mach::MAX_MESSAGE_SIZE;
use crate::mach::ports::{Answer, Call, Opening, OpeningStage};

verus! {

/// Where an exchange stands: the call that is out, or how it ended.
#[derive(Clone, Copy, Debug, PartialEq, Eq, Structural)]
pub enum Stage {
    /// The reply port is being opened.
    Opening,
    Sending,
    Receiving,
    /// The reply port is being given back; the exchange then ends with this outcome.
    Dropping { outcome: bool },
    Deallocating { outcome: bool },
    Over { outcome: bool },
}

/// One message on its way to `port`.
#[derive(Debug)]
pub struct Exchange {
    pub port: u32,
    pub payload: Vec<u8>,
    pub awaits: bool,
    pub opening: Opening,
    pub stage: Stage,
}

/// The part of an exchange that its answers change.
#[derive(Clone, Copy, Debug, PartialEq, Eq, Structural)]
pub struct Standing {
    pub awaits: bool,
    pub opening: Opening,
    pub stage: Stage,
}

impl Standing {
    /// Whether there is a reply port that has been made and not yet given back.
    pub open spec fn holds(self) -> bool {
        self.awaits && self.opening.port != 0 && match self.stage {
            Stage::Opening => self.opening.holds(),
            Stage::Over { .. } => false,
            _ => true,
        }
    }

    /// An exchange opens a port only to await an answer, and goes on once the port is open.
    pub open spec fn wf(self) -> bool {
        &&& self.stage is Opening ==> self.awaits && !(self.opening.stage is Open)
            && !(self.opening.stage is Failed)
        &&& self.stage is Receiving || self.stage is Dropping || self.stage is Deallocating
            ==> self.awaits
        &&& self.awaits && (self.stage is Sending || self.stage is Receiving)
            ==> self.opening.stage is Open
    }

    /// How the exchange stands once the call that is out has been answered.
    pub open spec fn after(self, answer: Answer) -> Self {
        match self.stage {
            Stage::Opening => {
                let opening = self.opening.after(answer);
                let stage = match opening.stage {
                    OpeningStage::Open => Stage::Sending,
                    OpeningStage::Failed => Stage::Over { outcome: false },
                    _ => Stage::Opening,
                };
                Standing { opening, stage, ..self }
            },
            Stage::Sending => {
                let stage = if answer.succeeded() {
                    if self.awaits {
                        Stage::Receiving
                    } else {
                        Stage::Over { outcome: true }
                    }
                } else if self.awaits && self.opening.port != 0 {
                    Stage::Dropping { outcome: false }
                } else {
                    Stage::Over { outcome: false }
                };
                Standing { stage, ..self }
            },
            Stage::Receiving => Standing {
                stage: Stage::Dropping { outcome: answer.succeeded() },
                ..self
            },
            Stage::Dropping { outcome } => Standing {
                stage: Stage::Deallocating { outcome },
                ..self
            },
            Stage::Deallocating { outcome } => Standing { stage: Stage::Over { outcome }, ..self },
            Stage::Over { .. } => self,
        }
    }

    /// How the exchange stands once a run of answers has come in.
    pub open spec fn after_all(self, answers: Seq<Answer>) -> Self
        decreases answers.len(),
    {
        if answers.len() == 0 {
            self
        } else {
            self.after_all(answers.drop_last()).after(answers.last())
        }
    }

    /// How many calls are still to come at most.
    pub open spec fn calls_left(self) -> int {
        match self.stage {
            Stage::Opening => match self.opening.stage {
                OpeningStage::Allocating => 7,
                OpeningStage::Limiting => 6,
                OpeningStage::Inserting => 5,
                OpeningStage::Dropping => 2,
                OpeningStage::Deallocating => 1,
                _ => 0,
            },
            Stage::Sending => 4,
            Stage::Receiving => 3,
            Stage::Dropping { .. } => 2,
            Stage::Deallocating { .. } => 1,
            Stage::Over { .. } => 0,
        }
    }
}

impl Exchange {
    pub open spec fn standing(self) -> Standing {
        Standing { awaits: self.awaits, opening: self.opening, stage: self.stage }
    }

    pub open spec fn wf(self) -> bool {
        self.payload@.len() <= MAX_MESSAGE_SIZE && self.standing().wf()
    }

    /// The call that is out; none once the exchange is over.
    pub open spec fn calls(self, call: Option<Call>) -> bool {
        match self.stage {
            Stage::Opening => self.opening.calls(call),
            Stage::Sending => call matches Some(Call::Send(out)) && (if self.awaits {
                addressed(
                    self.port,
                    self.opening.port,
                    self.opening.port as i32,
                    19u32 | (20u32 << 8),
                    self.payload@,
                    out,
                )
            } else {
                addressed(self.port, 0, 0, 19u32 | (0u32 << 8), self.payload@, out)
            }),
            Stage::Receiving => call == Some(Call::Receive { port: self.opening.port }),
            Stage::Dropping { .. } => call == Some(Call::DropReceive { port: self.opening.port }),
            Stage::Deallocating { .. } => call == Some(
                Call::Deallocate { port: self.opening.port },
            ),
            Stage::Over { .. } => call is None,
        }
    }

    /// The call to make next.
    pub fn call(&self) -> (call: Option<Call>)
        requires
            self.wf(),
        ensures
            self.calls(call),
    {
        match self.stage {
            Stage::Opening => self.opening.call(),
            Stage::Sending => {
                let reply_port = if self.awaits {
                    Some(self.opening.port)
                } else {
                    None
                };
                Some(Call::Send(request_message(self.port, reply_port, self.payload.as_slice())))
            },
            Stage::Receiving => Some(Call::Receive { port: self.opening.port }),
            Stage::Dropping { .. } => Some(Call::DropReceive { port: self.opening.port }),
            Stage::Deallocating { .. } => Some(Call::Deallocate { port: self.opening.port }),
            Stage::Over { .. } => None,
        }
    }

    /// Takes what came of the call. For a receive, the result is a success exactly when a message
    /// was received.
    pub fn answered(&mut self, answer: Answer)
        requires
            old(self).wf(),
        ensures
            final(self).wf(),
            final(self).standing() == old(self).standing().after(answer),
            final(self).port == old(self).port,
            final(self).payload@ == old(self).payload@,
    {
        match self.stage {
            Stage::Opening => {
                self.opening.answered(answer);
                match self.opening.stage {
                    OpeningStage::Open => {
                        self.stage = Stage::Sending;
                    },
                    OpeningStage::Failed => {
                        self.stage = Stage::Over { outcome: false };
                    },
                    _ => {},
                }
            },
            Stage::Sending => {
                if answer.is_success() {
                    if self.awaits {
                        self.stage = Stage::Receiving;
                    } else {
                        self.stage = Stage::Over { outcome: true };
                    }
                } else if self.awaits && self.opening.port != 0 {
                    self.stage = Stage::Dropping { outcome: false };
                } else {
                    self.stage = Stage::Over { outcome: false };
                }
            },
            Stage::Receiving => {
                self.stage = Stage::Dropping { outcome: answer.is_success() };
            },
            Stage::Dropping { outcome } => {
                self.stage = Stage::Deallocating { outcome };
            },
            Stage::Deallocating { outcome } => {
                self.stage = Stage::Over { outcome };
            },
            Stage::Over { .. } => {},
        }
    }

    /// How the exchange ended, once it has: whether the message was sent and, where an answer was
    /// awaited, one was received.
    pub fn outcome(&self) -> (outcome: Option<bool>)
        ensures
            outcome == match self.stage {
                Stage::Over { outcome } => Some(outcome),
                _ => None,
            },
    {
        match self.stage {
            Stage::Over { outcome } => Some(outcome),
            _ => None,
        }
    }
}

/// Starts sending a message. Refused without a message or a port, when the message is longer than
/// one may be, and when an answer is awaited with nowhere to put it. A reply port's queue holds one
/// message.
pub fn mach_send_message(
    port: u32,
    message: Option<&[u8]>,
    await_response: bool,
    has_response_buf: bool,
) -> (exchange: Option<Exchange>)
    ensures
        exchange is Some <==> sendable(port, message) && !(await_response && !has_response_buf),
        exchange matches Some(started) ==> {
            &&& started.wf()
            &&& started.port == port
            &&& started.payload@ == message->0@
            &&& started.standing() == starting(await_response)
        },
{
    match message {
        Some(bytes) => {
            if port == 0 || bytes.len() > MAX_MESSAGE_SIZE as usize || (await_response
                && !has_response_buf) {
                return None;
            }
            let mut payload: Vec<u8> = Vec::new();
            let mut i: usize = 0;
            while i < bytes.len()
                invariant
                    i <= bytes@.len(),
                    payload@ == bytes@.take(i as int),
                decreases bytes@.len() - i,
            {
                payload.push(bytes[i]);
                assert(bytes@.take(i as int).push(bytes@[i as int]) == bytes@.take(i + 1));
                i += 1;
            }
            assert(bytes@.take(bytes@.len() as int) == bytes@);
            let stage = if await_response {
                Stage::Opening
            } else {
                Stage::Sending
            };
            Some(
                Exchange { port, payload, awaits: await_response, opening: Opening::new(1), stage },
            )
        },
        None => None,
    }
}

/// How an exchange stands before its first call.
pub open spec fn starting(awaits: bool) -> Standing {
    Standing {
        awaits,
        opening: Opening { limit: 1, port: 0, stage: OpeningStage::Allocating },
        stage: if awaits {
            Stage::Opening
        } else {
            Stage::Sending
        },
    }
}

/// Whatever the answers, an exchange keeps its shape and comes closer to its end with every call.
pub proof fn an_exchange_ends(standing: Standing, answer: Answer)
    requires
        standing.wf(),
    ensures
        standing.after(answer).wf(),
        !(standing.stage is Over) ==> 0 <= standing.after(answer).calls_left()
            < standing.calls_left(),
        standing.calls_left() == 0 <==> standing.stage is Over,
{
}

/// An exchange gives its reply port back exactly once: the port is held from the answer that makes
/// it until the call that deallocates it, the same port throughout, and none is held at the end.
pub proof fn a_reply_port_is_given_back(standing: Standing, answer: Answer)
    requires
        standing.wf(),
    ensures
        standing.stage is Over ==> !standing.holds(),
        standing.holds() ==> standing.after(answer).opening.port == standing.opening.port,
        !standing.holds() && standing.after(answer).holds() ==> {
            &&& standing.stage is Opening
            &&& standing.opening.stage is Allocating
            &&& answer.succeeded()
            &&& standing.after(answer).opening.port == answer.port
        },
        standing.holds() && !standing.after(answer).holds() ==> {
            ||| standing.stage is Deallocating
            ||| standing.stage is Opening && standing.opening.stage is Deallocating
        },
{
}

/// After any answers to an exchange that has just started, its shape holds, and at its end it holds
/// no port.
pub proof fn no_port_outlives_an_exchange(awaits: bool, answers: Seq<Answer>)
    ensures
        starting(awaits).after_all(answers).wf(),
        starting(awaits).after_all(answers).awaits == awaits,
        starting(awaits).after_all(answers).stage is Over ==> !starting(awaits).after_all(
            answers,
        ).holds(),
        answers.len() >= 7 ==> starting(awaits).after_all(answers).stage is Over,
    decreases answers.len(),
{
    reached(awaits, answers);
    let reached = starting(awaits).after_all(answers);
    an_exchange_ends(reached, Answer { result: 0, port: 0 });
}

proof fn reached(awaits: bool, answers: Seq<Answer>)
    ensures
        starting(awaits).after_all(answers).wf(),
        starting(awaits).after_all(answers).awaits == awaits,
        starting(awaits).after_all(answers).calls_left() <= if answers.len() >= 7 {
            0
        } else {
            7 - answers.len()
        },
    decreases answers.len(),
{
    if answers.len() > 0 {
        reached(awaits, answers.drop_last());
        an_exchange_ends(starting(awaits).after_all(answers.drop_last()), answers.last());
    }
}

/// An exchange in which no call fails succeeds: after one call where no answer is awaited, after
/// seven where one is.
pub proof fn an_exchange_without_failures_succeeds(answers: Seq<Answer>)
    requires
        forall|i: int| 0 <= i < answers.len() ==> (#[trigger] answers[i]).succeeded(),
    ensures
        answers.len() == 1 ==> starting(false).after_all(answers).stage == (Stage::Over {
            outcome: true,
        }),
        answers.len() == 7 ==> starting(true).after_all(answers).stage == (Stage::Over {
            outcome: true,
        }),
{
    reveal_with_fuel(Standing::after_all, 9);
    if answers.len() == 7 {
        let a = answers;
        assert(a.last() == a[6]);
        assert(a.drop_last().last() == a[5]);
        assert(a.drop_last().drop_last().last() == a[4]);
        let b = a.drop_last().drop_last().drop_last();
        assert(b.last() == a[3]);
        assert(b.drop_last().last() == a[2]);
        assert(b.drop_last().drop_last().last() == a[1]);
        assert(b.drop_last().drop_last().drop_last().last() == a[0]);
    }
}

/// An exchange whose message the kernel refuses fails.
pub proof fn a_refused_message_fails_the_exchange(standing: Standing, answer: Answer)
    requires
        standing.wf(),
        standing.stage is Sending,
        !answer.succeeded(),
    ensures
        standing.after(answer).stage == (Stage::Over { outcome: false })
            || standing.after(answer).stage == (Stage::Dropping { outcome: false }),
{
}

/// A message is sent to its port with its own payload. Without an answer awaited it names no reply
/// port; with one it names the port opened for it, which is then received on.
pub proof fn a_message_is_sent_with_its_payload(exchange: Exchange, call: Option<Call>)
    requires
        exchange.wf(),
        exchange.stage is Sending,
        exchange.calls(call),
    ensures
        call matches Some(Call::Send(out)) && {
            &&& out.header.msgh_remote_port == exchange.port
            &&& out.data@.take(exchange.payload@.len() as int) == exchange.payload@
            &&& exchange.awaits ==> out.header.msgh_local_port == exchange.opening.port
            &&& !exchange.awaits ==> out.header.msgh_local_port == 0
        },
{
    crate::mach::framing::a_payload_is_filled_to_whole_words(exchange.payload@);
}

/// An exchange waits on the port it opened, and gives that port back, the receive right first and the
/// name after.
pub proof fn an_exchange_receives_on_its_own_port(exchange: Exchange, call: Option<Call>)
    requires
        exchange.wf(),
        exchange.calls(call),
    ensures
        exchange.stage is Receiving ==> call == Some(Call::Receive { port: exchange.opening.port }),
        exchange.stage is Dropping ==> call == Some(
            Call::DropReceive { port: exchange.opening.port },
        ),
        exchange.stage is Deallocating ==> call == Some(
            Call::Deallocate { port: exchange.opening.port },
        ),
        exchange.stage is Over <==> call is None,
{
}

/// An exchange ends as its last step that counts did: with the send where no answer is awaited, with
/// the receive where one is. Giving the port back changes nothing of that.
pub proof fn an_exchange_ends_as_it_went(standing: Standing, answer: Answer, more: Answer)
    requires
        standing.wf(),
    ensures
        standing.stage is Sending && !standing.awaits ==> standing.after(answer).stage == (
        Stage::Over { outcome: answer.result == 0 }),
        standing.stage is Sending && standing.awaits && answer.result == 0 ==> standing.after(
            answer,
        ).stage == Stage::Receiving,
        standing.stage is Sending && standing.awaits && answer.result != 0
            && standing.opening.port != 0 ==> standing.after(answer).stage == (Stage::Dropping {
            outcome: false,
        }),
        standing.stage is Receiving ==> standing.after(answer).stage == (Stage::Dropping {
            outcome: answer.result == 0,
        }),
        standing.stage matches Stage::Dropping { outcome } ==> standing.after(answer).after(
            more,
        ).stage == (Stage::Over { outcome }),
        standing.stage is Over ==> standing.after(answer) == standing,
{
}

/// A port that cannot be opened fails the exchange before anything is sent; once it is open the
/// message is sent next.
pub proof fn nothing_is_sent_without_the_port(standing: Standing, answer: Answer)
    requires
        standing.wf(),
        standing.stage is Opening,
    ensures
        standing.after(answer).stage is Sending <==> standing.opening.stage is Inserting
            && answer.result == 0,
        standing.opening.stage is Allocating && answer.result != 0 ==> standing.after(answer).stage
            == (Stage::Over { outcome: false }),
        standing.opening.stage is Deallocating ==> standing.after(answer).stage == (Stage::Over {
            outcome: false,
        }),
{
}

/// An exchange starts when there is a port, a message that fits and, for an answer, somewhere to put
/// it; it carries that message, and opens a port for one reply only to await an answer.
pub proof fn an_exchange_starts_with_its_message(
    port: u32,
    bytes: &[u8],
    awaits: bool,
    has_buffer: bool,
    exchange: Option<Exchange>,
    none: Option<Exchange>,
)
    requires
        call_ensures(mach_send_message, (port, Some(bytes), awaits, has_buffer), exchange),
        call_ensures(mach_send_message, (port, None::<&[u8]>, awaits, has_buffer), none),
    ensures
        none is None,
        exchange is Some <==> port != 0 && bytes@.len() <= 262_144 && (awaits ==> has_buffer),
        exchange matches Some(started) ==> {
            &&& started.port == port && started.payload@ == bytes@ && started.awaits == awaits
            &&& awaits ==> started.stage == Stage::Opening && started.opening.limit == 1
                && started.opening.stage == OpeningStage::Allocating && started.opening.port == 0
            &&& !awaits ==> started.stage == Stage::Sending
        },
{
}

/// An exchange says how it ended once it has, and not before.
pub proof fn an_outcome_is_told_at_the_end(exchange: Exchange, outcome: Option<bool>)
    requires
        call_ensures(Exchange::outcome, (&exchange,), outcome),
    ensures
        outcome is Some <==> exchange.stage is Over,
        outcome matches Some(went) ==> exchange.stage == (Stage::Over { outcome: went }),
{
}

} // verus!
