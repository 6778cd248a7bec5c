//! The life of a job: the stages of spawning it, the running job, and what
//! killing it leaves to be done.

use crate::address::{nth_pair, AddressCounter};
use crate::command::{
    nat_commands, nat_plan, plan_view, provision_commands, provision_plan, Invocation,
    InvocationView, Tool,
};
use crate::inventory::{inventory, used_ports};
use crate::ports::{
    allocate_with, allocation_for, port_set, random_word, PortMapping, PortRange,
};
use futures_util::future::{AbortHandle, AbortRegistration};
use vstd::prelude::*;
use vstd::string::*;

verus! {

#[verifier::external_type_specification]
#[verifier::external_body]
pub struct ExAbortHandle(AbortHandle);

#[verifier::external_type_specification]
#[verifier::external_body]
pub struct ExAbortRegistration(AbortRegistration);

/// What a job runs. `H` is the type of the handles under which locally held
/// artifacts are kept open.
#[derive(Debug)]
pub enum Workload<H> {
    /// A workload fetched by the runtime itself, named by a slug.
    RemoteSlug { reference: String },
    /// A workload held locally as a binary and its configuration.
    LocalArtifact { binary: H, config: H },
}

/// Why no job came into being.
#[derive(Clone, Copy, Debug, PartialEq, Eq, Structural)]
pub enum SpawnError {
    /// Too few host ports are free; the request may be repeated later.
    Unavailable,
    /// The host could not be inspected or the runtime did not start.
    Internal,
}

/// Everything a spawn is asked with. `ip_command` is the path of the
/// namespace tool, absent where that path is not text.
#[derive(Debug)]
pub struct Request<H> {
    pub id: String,
    pub workload: Workload<H>,
    pub ip_command: Option<String>,
    pub port_range: PortRange,
    pub ports: Vec<u16>,
    pub net_device: String,
}

/// The stage of a spawn that waits for the table of listening sockets.
#[derive(Debug)]
pub struct PortQuery<H> {
    pub request: Request<H>,
}

/// How the runtime's standard streams are set up, and whether the runtime
/// dies with its handle.
#[derive(Clone, Copy, Debug, PartialEq, Eq, Structural)]
pub struct Streams {
    pub discard_input: bool,
    pub capture_output: bool,
    pub capture_error: bool,
    pub kill_on_drop: bool,
}

/// The stage of a spawn that waits for the runtime to start: the network
/// commands to issue first, in order, and the runtime's own command line.
#[derive(Debug)]
pub struct Launch<H> {
    pub id: String,
    pub workload: Workload<H>,
    pub mapped_ports: Vec<PortMapping>,
    pub network: Vec<Invocation>,
    pub runtime: Invocation,
    pub streams: Streams,
}

/// The first stage of a spawn.
#[derive(Debug)]
pub enum Begun<H> {
    /// Ports were requested: the listening sockets have to be looked up.
    Query(PortQuery<H>),
    /// No port was requested: the runtime can be started at once.
    Launch(Launch<H>),
}

/// A running job. `P` is the type of the handle of its process.
#[derive(Debug)]
pub struct Job<P, H> {
    cleanup: AbortHandle,
    workload: Workload<H>,
    id: String,
    process: P,
    mapped_ports: Vec<PortMapping>,
}

/// The mathematical form of a running job.
pub struct JobView<P, H> {
    pub id: Seq<char>,
    pub workload: Workload<H>,
    pub process: P,
    pub mapped_ports: Seq<PortMapping>,
}

impl<P, H> View for Job<P, H> {
    type V = JobView<P, H>;

    closed spec fn view(&self) -> JobView<P, H> {
        JobView {
            id: self.id@,
            workload: self.workload,
            process: self.process,
            mapped_ports: self.mapped_ports@,
        }
    }
}

/// One thing left to do for a killed job.
#[derive(Debug)]
pub enum TeardownAction<P, H> {
    /// Terminate the process.
    Terminate(P),
    /// Close the handle of the binary.
    CloseBinary(H),
    /// Close the handle of the configuration.
    CloseConfig(H),
}

/// The arguments the runtime is started with: the deploy subcommand and the
/// slug, or the run subcommand with the fixed places of the job's
/// configuration and binary.
pub open spec fn launch_args<H>(workload: Workload<H>) -> Seq<Seq<char>> {
    match workload {
        Workload::RemoteSlug { reference } => seq!["deploy"@, reference@],
        Workload::LocalArtifact { .. } => seq![
            "run"@,
            "--wasmcfgfile"@,
            "/app/Enarx.toml"@,
            "/app/main.wasm"@,
        ],
    }
}

/// The invocation that starts the runtime.
pub open spec fn runtime_call<H>(workload: Workload<H>) -> InvocationView {
    InvocationView { tool: Tool::Runtime, args: launch_args(workload) }
}

/// The runtime reads nothing, its output and errors are captured, and it
/// does not outlive its handle.
pub open spec fn runtime_streams() -> Streams {
    Streams { discard_input: true, capture_output: true, capture_error: true, kill_on_drop: true }
}

/// The invocation that lists the listening TCP sockets: numeric, without a
/// header line.
pub open spec fn inventory_call() -> InvocationView {
    InvocationView { tool: Tool::Inventory, args: seq!["-ltnH"@] }
}

/// What the lookup of the listening sockets leads to, for a raw random word
/// and an address counter that has handed out `issued` pairs: the port
/// mapping and the network commands, or the reason there will be no job.
///
/// A table that could not be had or read is an internal error. Too few free
/// ports make the job unavailable for now. A namespace tool whose path is no
/// text is an internal error, found only once the ports are settled. The
/// commands are the namespace steps followed by the firewall rules, both for
/// the next address pair.
pub open spec fn resolution<H>(
    request: Request<H>,
    table: Option<Seq<u8>>,
    word: u32,
    issued: nat,
) -> Result<(Seq<PortMapping>, Seq<InvocationView>), SpawnError> {
    match table {
        None => Err(SpawnError::Internal),
        Some(bytes) => match inventory(bytes) {
            Err(_) => Err(SpawnError::Internal),
            Ok(listening) => match allocation_for(
                request.port_range,
                word,
                listening.to_set(),
                request.ports@,
            ) {
                Err(_) => Err(SpawnError::Unavailable),
                Ok(mapped) => match request.ip_command {
                    None => Err(SpawnError::Internal),
                    Some(ip) => Ok(
                        (
                            mapped,
                            provision_plan(ip@, request.id@, nth_pair(issued)) + nat_plan(
                                request.id@,
                                request.net_device@,
                                nth_pair(issued),
                                mapped,
                            ),
                        ),
                    ),
                },
            },
        },
    }
}

/// Whether `r` and the counter's move from `before` to `after` are what
/// `resolution` prescribes for `word`: on failure the counter stays, on
/// success it has handed out one more pair and the launch carries the
/// request's identity and workload, the mapping, the commands and the
/// runtime's command line.
pub open spec fn resolves<H>(
    request: Request<H>,
    table: Option<Seq<u8>>,
    word: u32,
    before: nat,
    r: Result<Launch<H>, SpawnError>,
    after: nat,
) -> bool {
    match resolution(request, table, word, before) {
        Err(e) => r == Err::<Launch<H>, SpawnError>(e) && after == before,
        Ok((mapped, network)) => {
            &&& r matches Ok(launch)
            &&& launch.id@ == request.id@
            &&& launch.workload == request.workload
            &&& launch.mapped_ports@ == mapped
            &&& plan_view(launch.network@) == network
            &&& launch.runtime@ == runtime_call(request.workload)
            &&& launch.streams == runtime_streams()
            &&& after == (before + 1) % 65536
        },
    }
}

/// The mathematical form of a table that may be missing.
pub open spec fn table_view(table: Option<&[u8]>) -> Option<Seq<u8>> {
    match table {
        Some(bytes) => Some(bytes@),
        None => None,
    }
}

/// Whether a lookup fails, and with which error, does not depend on the
/// random word. In particular a request for more ports than are free is
/// refused as unavailable whatever the word, and no command is planned.
pub proof fn law_refusal_is_settled<H>(
    request: Request<H>,
    table: Option<Seq<u8>>,
    one: u32,
    other: u32,
    issued: nat,
)
    ensures
        resolution(request, table, one, issued) is Err <==> resolution(
            request,
            table,
            other,
            issued,
        ) is Err,
        resolution(request, table, one, issued) matches Err(e) ==> resolution(
            request,
            table,
            other,
            issued,
        ) == Err::<(Seq<PortMapping>, Seq<InvocationView>), SpawnError>(e),
        table is Some && inventory(table->0) is Ok ==> (resolution(request, table, one, issued)
            == Err::<(Seq<PortMapping>, Seq<InvocationView>), SpawnError>(SpawnError::Unavailable)
            <==> request.ports@.len() > crate::ports::free_ports(
            request.port_range,
            inventory(table->0)->Ok_0.to_set(),
        ).len()),
{
    if let Some(bytes) = table {
        if let Ok(listening) = inventory(bytes) {
            crate::ports::law_word_is_immaterial(
                request.port_range,
                one,
                listening.to_set(),
                request.ports@,
            );
            crate::ports::law_word_is_immaterial(
                request.port_range,
                other,
                listening.to_set(),
                request.ports@,
            );
            let outcome = allocation_for(
                request.port_range,
                one,
                listening.to_set(),
                request.ports@,
            );
            if outcome is Ok {
                assert(resolution(request, table, one, issued) != Err::<
                    (Seq<PortMapping>, Seq<InvocationView>),
                    SpawnError,
                >(SpawnError::Unavailable));
            } else {
                assert(resolution(request, table, one, issued) == Err::<
                    (Seq<PortMapping>, Seq<InvocationView>),
                    SpawnError,
                >(SpawnError::Unavailable));
            }
        }
    }
}

/// What is left to do after a job's cleanup task has been cancelled: the
/// process is terminated, then, for locally held artifacts only, the binary
/// and the configuration are closed, each once.
pub open spec fn teardown_plan<P, H>(process: P, workload: Workload<H>) -> Seq<TeardownAction<P, H>> {
    match workload {
        Workload::RemoteSlug { .. } => seq![TeardownAction::Terminate(process)],
        Workload::LocalArtifact { binary, config } => seq![
            TeardownAction::Terminate(process),
            TeardownAction::CloseBinary(binary),
            TeardownAction::CloseConfig(config),
        ],
    }
}

/// Terminating the process comes first whatever the workload, and nothing in
/// a teardown depends on how an earlier action ended.
pub proof fn law_termination_always_attempted<P, H>(process: P, workload: Workload<H>)
    ensures
        teardown_plan(process, workload).len() >= 1,
        teardown_plan(process, workload)[0] == TeardownAction::<P, H>::Terminate(process),
{
}

/// A job with locally held artifacts has its binary and its configuration
/// closed exactly once each, after the attempt to terminate the process; a
/// job without them has nothing closed.
pub proof fn law_handles_closed_once<P, H>(process: P, workload: Workload<H>)
    ensures
        workload matches Workload::LocalArtifact { binary, config } ==> ({
            &&& teardown_plan(process, workload).len() == 3
            &&& teardown_plan(process, workload)[1] == TeardownAction::<P, H>::CloseBinary(binary)
            &&& teardown_plan(process, workload)[2] == TeardownAction::<P, H>::CloseConfig(config)
        }),
        workload is RemoteSlug ==> teardown_plan(process, workload).len() == 1,
{
}

/// A fresh cancellation handle and the registration that ties a task to
/// it, by `AbortHandle::new_pair`.
#[verifier::external_body]
fn cleanup_pair() -> (AbortHandle, AbortRegistration) {
    AbortHandle::new_pair()
}

/// Signals cancellation to the task tied to `handle`, by
/// `AbortHandle::abort`. The call only signals: it neither waits for the
/// task nor reports anything.
#[verifier::external_body]
fn cancel(handle: &AbortHandle) {
    handle.abort()
}

fn word(s: &str) -> (r: String)
    ensures
        r@ == s@,
{
    String::from_str(s)
}

impl SpawnError {
    /// The HTTP status that reports the error.
    pub fn status(&self) -> (code: u16)
        ensures
            code == match *self {
                SpawnError::Unavailable => 503u16,
                SpawnError::Internal => 500u16,
            },
    {
        match self {
            SpawnError::Unavailable => 503,
            SpawnError::Internal => 500,
        }
    }

    /// The text sent along with the status: a hint to retry where ports ran
    /// out, nothing otherwise.
    pub fn message(&self) -> (text: &'static str)
        ensures
            text@ == match *self {
                SpawnError::Unavailable => "Insufficient amount of open ports on the system, try again later"@,
                SpawnError::Internal => ""@,
            },
    {
        match self {
            SpawnError::Unavailable => "Insufficient amount of open ports on the system, try again later",
            SpawnError::Internal => "",
        }
    }
}

/// The invocation that starts the runtime on `workload`.
pub fn runtime_command<H>(workload: &Workload<H>) -> (r: Invocation)
    ensures
        r@ == runtime_call(*workload),
{
    let args = match workload {
        Workload::RemoteSlug { reference } => {
            let args = vec![word("deploy"), reference.clone()];
            assert(args.deep_view() =~~= seq!["deploy"@, reference@]);
            args
        },
        Workload::LocalArtifact { .. } => {
            let args = vec![
                word("run"),
                word("--wasmcfgfile"),
                word("/app/Enarx.toml"),
                word("/app/main.wasm"),
            ];
            assert(args.deep_view() =~~= seq![
                "run"@,
                "--wasmcfgfile"@,
                "/app/Enarx.toml"@,
                "/app/main.wasm"@,
            ]);
            args
        },
    };
    Invocation { tool: Tool::Runtime, args }
}

/// The invocation that lists the listening TCP sockets.
pub fn inventory_command() -> (r: Invocation)
    ensures
        r@ == inventory_call(),
{
    let args = vec![word("-ltnH")];
    assert(args.deep_view() =~~= seq!["-ltnH"@]);
    Invocation { tool: Tool::Inventory, args }
}

impl<P, H> Job<P, H> {
    /// Begins a spawn. Without requested ports nothing of the network is
    /// touched: the mapping is empty, no command precedes the launch, and the
    /// runtime can be started at once. With requested ports the listening
    /// sockets are to be looked up first.
    pub fn spawn(request: Request<H>) -> (stage: Begun<H>)
        ensures
            request.ports@.len() > 0 ==> stage == Begun::Query(PortQuery { request }),
            request.ports@.len() == 0 ==> (stage matches Begun::Launch(launch) && {
                &&& launch.id == request.id
                &&& launch.workload == request.workload
                &&& launch.mapped_ports@.len() == 0
                &&& launch.network@.len() == 0
                &&& launch.runtime@ == runtime_call(request.workload)
                &&& launch.streams == runtime_streams()
            }),
    {
        if request.ports.len() > 0 {
            return Begun::Query(PortQuery { request });
        }
        let runtime = runtime_command(&request.workload);
        Begun::Launch(
            Launch {
                id: request.id,
                workload: request.workload,
                mapped_ports: Vec::new(),
                network: Vec::new(),
                runtime,
                streams: Streams {
                    discard_input: true,
                    capture_output: true,
                    capture_error: true,
                    kill_on_drop: true,
                },
            },
        )
    }

    /// The job's identifier.
    pub fn id(&self) -> (id: &String)
        ensures
            id@ == self@.id,
    {
        &self.id
    }

    /// The host port each requested logical port is reached by.
    pub fn mapped_ports(&self) -> (mapped: &Vec<PortMapping>)
        ensures
            mapped@ == self@.mapped_ports,
    {
        &self.mapped_ports
    }

    /// The handle of the job's process.
    pub fn process(&self) -> (process: &P)
        ensures
            *process == self@.process,
    {
        &self.process
    }

    /// The handle of the job's process, for use of its streams. The job
    /// stays what it was but for the handle's own state.
    pub fn process_mut(&mut self) -> (process: &mut P)
        ensures
            *process == old(self)@.process,
            final(self)@ == (JobView { process: *final(process), ..old(self)@ }),
    {
        &mut self.process
    }

    /// Whether the job holds locally kept artifacts.
    pub fn holds_artifacts(&self) -> (b: bool)
        ensures
            b == (self@.workload is LocalArtifact),
    {
        match self.workload {
            Workload::RemoteSlug { .. } => false,
            Workload::LocalArtifact { .. } => true,
        }
    }

    /// Kills the job: its cleanup task is told to stop, and what remains to
    /// be done is handed back in the order in which it is to be attempted.
    /// Every action is to be attempted whether or not an earlier one failed.
    pub fn kill(self) -> (actions: Vec<TeardownAction<P, H>>)
        ensures
            actions@ == teardown_plan(self@.process, self@.workload),
    {
        cancel(&self.cleanup);
        let mut actions: Vec<TeardownAction<P, H>> = Vec::new();
        actions.push(TeardownAction::Terminate(self.process));
        match self.workload {
            Workload::RemoteSlug { .. } => {},
            Workload::LocalArtifact { binary, config } => {
                actions.push(TeardownAction::CloseBinary(binary));
                actions.push(TeardownAction::CloseConfig(config));
            },
        }
        assert(actions@ =~= teardown_plan(self.process, self.workload));
        actions
    }
}

impl<H> PortQuery<H> {
    /// Settles the network side of a spawn for a given random word. `table`
    /// is what the inventory tool printed, absent where it could not be run.
    pub fn resolve_with(
        self,
        table: Option<&[u8]>,
        word: u32,
        counter: &mut AddressCounter,
    ) -> (r: Result<Launch<H>, SpawnError>)
        ensures
            resolves(
                self.request,
                table_view(table),
                word,
                old(counter).issued(),
                r,
                final(counter).issued(),
            ),
    {
        let Request { id, workload, ip_command, port_range, ports, net_device } = self.request;
        let bytes = match table {
            Some(bytes) => bytes,
            None => {
                return Err(SpawnError::Internal);
            },
        };
        let listening = match used_ports(bytes) {
            Ok(listening) => listening,
            Err(_) => {
                return Err(SpawnError::Internal);
            },
        };
        let used = port_set(&listening);
        let mapped = match allocate_with(port_range, word, &used, &ports) {
            Ok(mapped) => mapped,
            Err(_) => {
                return Err(SpawnError::Unavailable);
            },
        };
        let ip = match ip_command {
            Some(ip) => ip,
            None => {
                return Err(SpawnError::Internal);
            },
        };
        let pair = counter.next_pair();
        let mut network = provision_commands(ip.as_str(), id.as_str(), &pair);
        let mut rules = nat_commands(id.as_str(), net_device.as_str(), &pair, &mapped);
        let ghost steps = plan_view(network@);
        let ghost firewall = plan_view(rules@);
        network.append(&mut rules);
        assert(plan_view(network@) =~= steps + firewall);
        let runtime = runtime_command(&workload);
        Ok(
            Launch {
                id,
                workload,
                mapped_ports: mapped,
                network,
                runtime,
                streams: Streams {
                    discard_input: true,
                    capture_output: true,
                    capture_error: true,
                    kill_on_drop: true,
                },
            },
        )
    }

    /// Settles the network side of a spawn: reads the table of listening
    /// sockets, maps the requested ports to free host ports from a random
    /// place in the range on, takes the next address pair and plans the
    /// network commands. Which error comes, if any, is settled by the table
    /// and the request alone; only the choice among free ports is random.
    pub fn resolve(self, table: Option<&[u8]>, counter: &mut AddressCounter) -> (r: Result<
        Launch<H>,
        SpawnError,
    >)
        ensures
            exists|word: u32|
                resolves(
                    self.request,
                    table_view(table),
                    word,
                    old(counter).issued(),
                    r,
                    final(counter).issued(),
                ),
    {
        let word = random_word();
        self.resolve_with(table, word, counter)
    }
}

impl<H> Launch<H> {
    /// Ends a spawn. With the process of the started runtime it yields the
    /// running job and the registration under which the cleanup task is to
    /// run; where the runtime did not start there is no job.
    pub fn started<P>(self, process: Option<P>) -> (r: Result<
        (Job<P, H>, AbortRegistration),
        SpawnError,
    >)
        ensures
            process is None ==> r is Err && r->Err_0 == SpawnError::Internal,
            process matches Some(handle) ==> (r matches Ok((job, _)) && job@ == (JobView {
                id: self.id@,
                workload: self.workload,
                process: handle,
                mapped_ports: self.mapped_ports@,
            })),
    {
        match process {
            None => Err(SpawnError::Internal),
            Some(handle) => {
                let (cleanup, registration) = cleanup_pair();
                Ok(
                    (
                        Job {
                            cleanup,
                            workload: self.workload,
                            id: self.id,
                            process: handle,
                            mapped_ports: self.mapped_ports,
                        },
                        registration,
                    ),
                )
            },
        }
    }
}

} // verus!
