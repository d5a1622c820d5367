//! Bringing the Mach service up: a port under the service's name, and a source for it on the run
//! loop.
use vstd::prelude::*;

use crate::mach::{KERN_SUCCESS, MACH_PORT_QLIMIT_LARGE};
use crate::mach::ports::Answer;

verus! {

/// The name the service is registered under, unless the environment names another.
pub fn bs_name(from_environment: Option<String>) -> (name: String)
    ensures
        name@ == match from_environment {
            Some(given) => given@,
            None => "git.kaievns.rini"@,
        },
{
    match from_environment {
        Some(given) => given,
        None => "git.kaievns.rini".to_owned(),
    }
}

/// The service as this process runs it.
#[allow(non_camel_case_types)]
#[derive(Clone, Copy, Debug, PartialEq, Eq, Structural)]
pub struct mach_server {
    pub is_running: bool,
    pub task: u32,
    pub port: u32,
    pub bs_port: u32,
    pub has_handler: bool,
}

impl Default for mach_server {
    fn default() -> (server: Self)
        ensures
            server == (mach_server {
                is_running: false,
                task: 0,
                port: 0,
                bs_port: 0,
                has_handler: false,
            }),
    {
        mach_server { is_running: false, task: 0, port: 0, bs_port: 0, has_handler: false }
    }
}

/// Where bringing the service up stands: the call that is out, or how it ended.
#[derive(Clone, Copy, Debug, PartialEq, Eq, Structural)]
pub enum Stage {
    AskingForBootstrap,
    Allocating,
    Inserting,
    Registering,
    Limiting,
    MakingPort,
    MakingSource,
    AddingSource,
    ReleasingSource,
    ReleasingPort { outcome: bool },
    Over { outcome: bool },
}

/// A call to be made on the way.
#[derive(Clone, Copy, Debug, PartialEq, Eq, Structural)]
pub enum Call {
    /// Ask the task for its bootstrap port.
    BootstrapPort { task: u32 },
    /// Make a port with a receive right.
    Allocate { task: u32 },
    /// Add a right to send to it.
    InsertSendRight { task: u32, port: u32 },
    /// Register it under the service's name.
    Register { bs_port: u32, port: u32 },
    /// Set how many messages may wait on it. What comes of it changes nothing.
    LimitQueue { port: u32, limit: u32 },
    /// Wrap it for the run loop.
    MakePort { port: u32 },
    /// Make a run loop source of it.
    MakeSource,
    /// Add the source to the main run loop.
    AddSource,
    /// Let go of the source.
    ReleaseSource,
    /// Let go of the wrapped port.
    ReleasePort,
}

/// The service on its way up.
#[derive(Clone, Copy, Debug, PartialEq, Eq, Structural)]
pub struct Beginning {
    pub server: mach_server,
    pub stage: Stage,
}

/// Starts bringing the service up in `task`.
pub fn mach_server_begin(server: mach_server, task: u32) -> (beginning: Beginning)
    ensures
        beginning == (Beginning {
            server: mach_server { task, ..server },
            stage: Stage::AskingForBootstrap,
        }),
{
    Beginning { server: mach_server { task, ..server }, stage: Stage::AskingForBootstrap }
}

impl Beginning {
    /// The call that is out; none once the service is up or has failed to come up.
    pub open spec fn calls(self) -> Option<Call> {
        let task = self.server.task;
        let port = self.server.port;
        match self.stage {
            Stage::AskingForBootstrap => Some(Call::BootstrapPort { task }),
            Stage::Allocating => Some(Call::Allocate { task }),
            Stage::Inserting => Some(Call::InsertSendRight { task, port }),
            Stage::Registering => Some(Call::Register { bs_port: self.server.bs_port, port }),
            Stage::Limiting => Some(Call::LimitQueue { port, limit: 1024 }),
            Stage::MakingPort => Some(Call::MakePort { port }),
            Stage::MakingSource => Some(Call::MakeSource),
            Stage::AddingSource => Some(Call::AddSource),
            Stage::ReleasingSource => Some(Call::ReleaseSource),
            Stage::ReleasingPort { .. } => Some(Call::ReleasePort),
            Stage::Over { .. } => None,
        }
    }

    /// The service once its call has been answered. It runs, and has its handler, from the moment it
    /// is registered and its queue limited.
    pub open spec fn after(self, answer: Answer) -> Self {
        let ok = answer.succeeded();
        let failed = Beginning { stage: Stage::Over { outcome: false }, ..self };
        match self.stage {
            Stage::AskingForBootstrap => if ok {
                Beginning {
                    server: mach_server { bs_port: answer.port, ..self.server },
                    stage: Stage::Allocating,
                }
            } else {
                failed
            },
            Stage::Allocating => if ok {
                Beginning {
                    server: mach_server { port: answer.port, ..self.server },
                    stage: Stage::Inserting,
                }
            } else {
                failed
            },
            Stage::Inserting => if ok {
                Beginning { stage: Stage::Registering, ..self }
            } else {
                failed
            },
            Stage::Registering => if ok {
                Beginning { stage: Stage::Limiting, ..self }
            } else {
                failed
            },
            Stage::Limiting => Beginning {
                server: mach_server { is_running: true, has_handler: true, ..self.server },
                stage: Stage::MakingPort,
            },
            Stage::MakingPort => if ok {
                Beginning { stage: Stage::MakingSource, ..self }
            } else {
                failed
            },
            Stage::MakingSource => if ok {
                Beginning { stage: Stage::AddingSource, ..self }
            } else {
                Beginning { stage: Stage::ReleasingPort { outcome: false }, ..self }
            },
            Stage::AddingSource => Beginning { stage: Stage::ReleasingSource, ..self },
            Stage::ReleasingSource => Beginning {
                stage: Stage::ReleasingPort { outcome: true },
                ..self
            },
            Stage::ReleasingPort { outcome } => Beginning { stage: Stage::Over { outcome }, ..self },
            Stage::Over { .. } => self,
        }
    }

    /// The service once a run of answers has come in.
    pub open spec fn after_all(self, answers: Seq<Answer>) -> Self
        decreases answers.len(),
    {
        if answers.len() == 0 {
            self
        } else {
            self.after_all(answers.drop_last()).after(answers.last())
        }
    }

    /// How far along the way this is.
    pub open spec fn place(self) -> int {
        match self.stage {
            Stage::AskingForBootstrap => 0,
            Stage::Allocating => 1,
            Stage::Inserting => 2,
            Stage::Registering => 3,
            Stage::Limiting => 4,
            Stage::MakingPort => 5,
            Stage::MakingSource => 6,
            Stage::AddingSource => 7,
            Stage::ReleasingSource => 8,
            Stage::ReleasingPort { .. } => 9,
            Stage::Over { .. } => 10,
        }
    }

    /// The call to make next.
    pub fn call(&self) -> (call: Option<Call>)
        ensures
            call == self.calls(),
    {
        let task: u32 = self.server.task;
        let port: u32 = self.server.port;
        match self.stage {
            Stage::AskingForBootstrap => Some(Call::BootstrapPort { task }),
            Stage::Allocating => Some(Call::Allocate { task }),
            Stage::Inserting => Some(Call::InsertSendRight { task, port }),
            Stage::Registering => Some(Call::Register { bs_port: self.server.bs_port, port }),
            Stage::Limiting => Some(Call::LimitQueue { port, limit: MACH_PORT_QLIMIT_LARGE }),
            Stage::MakingPort => Some(Call::MakePort { port }),
            Stage::MakingSource => Some(Call::MakeSource),
            Stage::AddingSource => Some(Call::AddSource),
            Stage::ReleasingSource => Some(Call::ReleaseSource),
            Stage::ReleasingPort { .. } => Some(Call::ReleasePort),
            Stage::Over { .. } => None,
        }
    }

    /// Takes what came of the call. Where the call makes an object of the run loop's, the result is
    /// a success exactly when there is one.
    pub fn answered(&mut self, answer: Answer)
        ensures
            *final(self) == old(self).after(answer),
    {
        let ok = answer.is_success();
        match self.stage {
            Stage::AskingForBootstrap => {
                if ok {
                    self.server.bs_port = answer.port;
                    self.stage = Stage::Allocating;
                } else {
                    self.stage = Stage::Over { outcome: false };
                }
            },
            Stage::Allocating => {
                if ok {
                    self.server.port = answer.port;
                    self.stage = Stage::Inserting;
                } else {
                    self.stage = Stage::Over { outcome: false };
                }
            },
            Stage::Inserting => {
                if ok {
                    self.stage = Stage::Registering;
                } else {
                    self.stage = Stage::Over { outcome: false };
                }
            },
            Stage::Registering => {
                if ok {
                    self.stage = Stage::Limiting;
                } else {
                    self.stage = Stage::Over { outcome: false };
                }
            },
            Stage::Limiting => {
                self.server.has_handler = true;
                self.server.is_running = true;
                self.stage = Stage::MakingPort;
            },
            Stage::MakingPort => {
                if ok {
                    self.stage = Stage::MakingSource;
                } else {
                    self.stage = Stage::Over { outcome: false };
                }
            },
            Stage::MakingSource => {
                if ok {
                    self.stage = Stage::AddingSource;
                } else {
                    self.stage = Stage::ReleasingPort { outcome: false };
                }
            },
            Stage::AddingSource => {
                self.stage = Stage::ReleasingSource;
            },
            Stage::ReleasingSource => {
                self.stage = Stage::ReleasingPort { outcome: true };
            },
            Stage::ReleasingPort { outcome } => {
                self.stage = Stage::Over { outcome };
            },
            Stage::Over { .. } => {},
        }
    }
}

/// Why a name could not be registered.
#[derive(Clone, Copy, Debug, PartialEq, Eq, Structural)]
pub enum RegisterFailure {
    NameInUse,
    NotPrivileged,
    Other { result: i32 },
}

/// Reads the result of registering the service's name.
pub fn register_failure(result: i32) -> (failure: Option<RegisterFailure>)
    ensures
        failure == if result == 0 {
            None
        } else if result == 1101 {
            Some(RegisterFailure::NameInUse)
        } else if result == 1100 {
            Some(RegisterFailure::NotPrivileged)
        } else {
            Some(RegisterFailure::Other { result })
        },
{
    if result == KERN_SUCCESS {
        None
    } else if result == crate::mach::BOOTSTRAP_NAME_IN_USE {
        Some(RegisterFailure::NameInUse)
    } else if result == crate::mach::BOOTSTRAP_NOT_PRIVILEGED {
        Some(RegisterFailure::NotPrivileged)
    } else {
        Some(RegisterFailure::Other { result })
    }
}

/// The calls come in one order and none is made twice: every answer leads further along the way.
pub proof fn the_way_up_goes_on(beginning: Beginning, answer: Answer)
    ensures
        beginning.stage is Over ==> beginning.after(answer) == beginning,
        !(beginning.stage is Over) ==> beginning.after(answer).place() > beginning.place(),
        beginning.place() <= 10,
{
}

/// The service is up after ten answers exactly when each call whose answer counts succeeded: the
/// bootstrap port, the port, its right, the name, and the two objects for the run loop. It is then
/// running on the port that was made.
pub proof fn the_service_is_up_when_nothing_failed(
    server: mach_server,
    task: u32,
    answers: Seq<Answer>,
)
    requires
        answers.len() == 10,
    ensures
        ({
            let start = Beginning {
                server: mach_server { task, ..server },
                stage: Stage::AskingForBootstrap,
            };
            let up = start.after_all(answers);
            let good = answers[0].succeeded() && answers[1].succeeded() && answers[2].succeeded()
                && answers[3].succeeded() && answers[5].succeeded() && answers[6].succeeded();
            &&& up.stage == (Stage::Over { outcome: good })
            &&& good ==> up.server == (mach_server {
                is_running: true,
                task,
                port: answers[1].port,
                bs_port: answers[0].port,
                has_handler: true,
            })
        }),
{
    reveal_with_fuel(Beginning::after_all, 12);
    let a = answers;
    let b = a.drop_last().drop_last().drop_last().drop_last().drop_last();
    assert(a.last() == a[9]);
    assert(a.drop_last().last() == a[8]);
    assert(a.drop_last().drop_last().last() == a[7]);
    assert(a.drop_last().drop_last().drop_last().last() == a[6]);
    assert(a.drop_last().drop_last().drop_last().drop_last().last() == a[5]);
    assert(b.last() == a[4]);
    assert(b.drop_last().last() == a[3]);
    assert(b.drop_last().drop_last().last() == a[2]);
    assert(b.drop_last().drop_last().drop_last().last() == a[1]);
    assert(b.drop_last().drop_last().drop_last().drop_last().last() == a[0]);
}

/// A service is registered before it runs: it is marked as running by no other answer than the one
/// that follows its registration.
pub proof fn a_service_runs_once_registered(beginning: Beginning, answer: Answer)
    ensures
        beginning.after(answer).server.is_running && !beginning.server.is_running
            ==> beginning.stage is Limiting,
        beginning.after(answer).stage is Limiting ==> beginning.stage is Registering
            && answer.succeeded(),
{
}

/// The calls on the way up, each on what the ones before it made: the bootstrap port of the task, a
/// port in it, the right to send to that, its name at the bootstrap port, its queue, and then the run
/// loop's own objects, which are let go of in turn.
pub proof fn the_calls_on_the_way_up(server: mach_server, task: u32, asked: Answer, made: Answer)
    requires
        asked.succeeded(),
        made.succeeded(),
    ensures
        ({
            let ok = Answer { result: 0, port: 0 };
            let first = Beginning {
                server: mach_server { task, ..server },
                stage: Stage::AskingForBootstrap,
            };
            let second = first.after(asked);
            let third = second.after(made);
            let fourth = third.after(ok);
            let fifth = fourth.after(ok);
            let sixth = fifth.after(ok);
            let seventh = sixth.after(ok);
            let eighth = seventh.after(ok);
            let ninth = eighth.after(ok);
            let tenth = ninth.after(ok);
            let last = tenth.after(ok);
            &&& first.calls() == Some(Call::BootstrapPort { task })
            &&& second.calls() == Some(Call::Allocate { task })
            &&& third.calls() == Some(Call::InsertSendRight { task, port: made.port })
            &&& fourth.calls() == Some(Call::Register { bs_port: asked.port, port: made.port })
            &&& fifth.calls() == Some(Call::LimitQueue { port: made.port, limit: 1024 })
            &&& sixth.calls() == Some(Call::MakePort { port: made.port })
            &&& seventh.calls() == Some(Call::MakeSource)
            &&& eighth.calls() == Some(Call::AddSource)
            &&& ninth.calls() == Some(Call::ReleaseSource)
            &&& tenth.calls() == Some(Call::ReleasePort)
            &&& last.calls() is None && last.stage == (Stage::Over { outcome: true })
            &&& !fifth.server.is_running || server.is_running
            &&& sixth.server.is_running && sixth.server.has_handler
        }),
{
}

/// A failure ends the way up at once, without the service; only a source that cannot be made has the
/// port for the run loop let go of first. What comes of limiting the queue does not matter.
pub proof fn a_failure_ends_the_way_up(beginning: Beginning, answer: Answer)
    requires
        !answer.succeeded(),
    ensures
        ({
            let next = beginning.after(answer);
            &&& beginning.stage is AskingForBootstrap || beginning.stage is Allocating
                || beginning.stage is Inserting || beginning.stage is Registering
                || beginning.stage is MakingPort ==> next.stage == (Stage::Over { outcome: false })
                && next.server == beginning.server
            &&& beginning.stage is MakingSource ==> next.calls() == Some(Call::ReleasePort)
                && next.after(answer).stage == (Stage::Over { outcome: false })
            &&& beginning.stage is Limiting ==> next.stage == Stage::MakingPort
        }),
{
}

/// The service goes by the name the environment gives it, and by its own where that gives none.
pub proof fn the_environment_names_the_service(given: String, named: String, unnamed: String)
    requires
        call_ensures(bs_name, (Some(given),), named),
        call_ensures(bs_name, (None::<String>,), unnamed),
    ensures
        named@ == given@,
        unnamed@ == "git.kaievns.rini"@,
{
}

/// A name in use and a want of privilege are told apart from other failures, which keep their number.
pub proof fn a_failed_registration_says_why(result: i32, failure: Option<RegisterFailure>)
    requires
        call_ensures(register_failure, (result,), failure),
    ensures
        failure is None <==> result == 0,
        failure == Some(RegisterFailure::NameInUse) <==> result == 1101,
        failure == Some(RegisterFailure::NotPrivileged) <==> result == 1100,
        failure matches Some(RegisterFailure::Other { result: number }) ==> number == result,
{
}

/// A service begins in the task given, as it was otherwise, and asks for the bootstrap port first; one
/// that was never begun is not running and has no port.
pub proof fn a_service_begins_in_its_task(
    server: mach_server,
    task: u32,
    beginning: Beginning,
)
    requires
        call_ensures(mach_server_begin, (server, task), beginning),
    ensures
        beginning.server.task == task,
        beginning.server.port == server.port && beginning.server.bs_port == server.bs_port
            && beginning.server.is_running == server.is_running && beginning.server.has_handler
            == server.has_handler,
        beginning.calls() == Some(Call::BootstrapPort { task }),
{
}

} // verus!
