//! The MI record and value model, the debugger's entities, the session
//! state, events, configuration and errors.
use vstd::prelude::*;
use crate::text::{decimal_string, decimal_text, text_eq};

verus! {

broadcast use vstd::std_specs::vec::axiom_vec_index_decreases;

/// Class of a result record (`^class`).
#[derive(Debug, Clone, Copy, PartialEq, Eq, Structural)]
pub enum ResultClass {
    Done,
    Running,
    Connected,
    Error,
    Exit,
}

/// Class of an exec-async record (`*class`).
#[derive(Debug, Clone, Copy, PartialEq, Eq, Structural)]
pub enum AsyncClass {
    Stopped,
    Running,
}

/// Class of a notification (`=class` or `+class`).
#[derive(Debug, Clone, Copy, PartialEq, Eq, Structural)]
pub enum NotificationClass {
    BreakpointCreated,
    BreakpointModified,
    BreakpointDeleted,
    ThreadGroupAdded,
    ThreadGroupStarted,
    ThreadGroupExited,
    ThreadCreated,
    ThreadSelected,
    ThreadExited,
    LibraryLoaded,
    LibraryUnloaded,
    CmdParamChanged,
    MemoryChanged,
    ParamChanged,
}

/// Why the target stopped; an unrecognised reason keeps its text.
#[derive(Debug, Clone, PartialEq, Eq)]
pub enum StopReason {
    BreakpointHit,
    WatchpointTrigger,
    ReadWatchpointTrigger,
    AccessWatchpointTrigger,
    FunctionFinished,
    LocationReached,
    WatchpointScope,
    EndSteppingRange,
    ExitedSignalled,
    Exited,
    ExitedNormally,
    SignalReceived,
    SolibEvent,
    Fork,
    Vfork,
    SyscallEntry,
    SyscallReturn,
    Unknown(String),
}

/// The stop reason that the debugger's `reason` text names.
pub open spec fn stop_reason_of(s: String) -> StopReason {
    let t = s@;
    if t == "breakpoint-hit"@ {
        StopReason::BreakpointHit
    } else if t == "watchpoint-trigger"@ {
        StopReason::WatchpointTrigger
    } else if t == "read-watchpoint-trigger"@ {
        StopReason::ReadWatchpointTrigger
    } else if t == "access-watchpoint-trigger"@ {
        StopReason::AccessWatchpointTrigger
    } else if t == "function-finished"@ {
        StopReason::FunctionFinished
    } else if t == "location-reached"@ {
        StopReason::LocationReached
    } else if t == "watchpoint-scope"@ {
        StopReason::WatchpointScope
    } else if t == "end-stepping-range"@ {
        StopReason::EndSteppingRange
    } else if t == "exited-signalled"@ {
        StopReason::ExitedSignalled
    } else if t == "exited"@ {
        StopReason::Exited
    } else if t == "exited-normally"@ {
        StopReason::ExitedNormally
    } else if t == "signal-received"@ {
        StopReason::SignalReceived
    } else if t == "solib-event"@ {
        StopReason::SolibEvent
    } else if t == "fork"@ {
        StopReason::Fork
    } else if t == "vfork"@ {
        StopReason::Vfork
    } else if t == "syscall-entry"@ {
        StopReason::SyscallEntry
    } else if t == "syscall-return"@ {
        StopReason::SyscallReturn
    } else {
        StopReason::Unknown(s)
    }
}

impl StopReason {
    /// Classifies the debugger's `reason` text.
    pub fn from_text(s: String) -> (r: StopReason)
        ensures
            r == stop_reason_of(s),
    {
        if text_eq(&s, "breakpoint-hit") {
            StopReason::BreakpointHit
        } else if text_eq(&s, "watchpoint-trigger") {
            StopReason::WatchpointTrigger
        } else if text_eq(&s, "read-watchpoint-trigger") {
            StopReason::ReadWatchpointTrigger
        } else if text_eq(&s, "access-watchpoint-trigger") {
            StopReason::AccessWatchpointTrigger
        } else if text_eq(&s, "function-finished") {
            StopReason::FunctionFinished
        } else if text_eq(&s, "location-reached") {
            StopReason::LocationReached
        } else if text_eq(&s, "watchpoint-scope") {
            StopReason::WatchpointScope
        } else if text_eq(&s, "end-stepping-range") {
            StopReason::EndSteppingRange
        } else if text_eq(&s, "exited-signalled") {
            StopReason::ExitedSignalled
        } else if text_eq(&s, "exited") {
            StopReason::Exited
        } else if text_eq(&s, "exited-normally") {
            StopReason::ExitedNormally
        } else if text_eq(&s, "signal-received") {
            StopReason::SignalReceived
        } else if text_eq(&s, "solib-event") {
            StopReason::SolibEvent
        } else if text_eq(&s, "fork") {
            StopReason::Fork
        } else if text_eq(&s, "vfork") {
            StopReason::Vfork
        } else if text_eq(&s, "syscall-entry") {
            StopReason::SyscallEntry
        } else if text_eq(&s, "syscall-return") {
            StopReason::SyscallReturn
        } else {
            StopReason::Unknown(s)
        }
    }
}

impl From<String> for StopReason {
    fn from(s: String) -> (r: StopReason) {
        StopReason::from_text(s)
    }
}

impl vstd::std_specs::convert::FromSpecImpl<String> for StopReason {
    open spec fn obeys_from_spec() -> bool {
        true
    }

    open spec fn from_spec(s: String) -> StopReason {
        stop_reason_of(s)
    }
}

/// The mathematical form of an MI value: text, an ordered list of values,
/// a tuple of named values, or a list of named values.
pub enum VValue {
    Str(Seq<char>),
    List(Seq<VValue>),
    Tuple(Seq<(Seq<char>, VValue)>),
    ResultList(Seq<(Seq<char>, VValue)>),
    Nothing,
}

/// An MI value. `ResultList` is a list whose elements are `name=value`
/// pairs (the `body` of a breakpoint table); the name of each is kept.
#[derive(Debug)]
pub enum MiValue {
    String(String),
    List(Vec<MiValue>),
    Tuple(Vec<MiResult>),
    ResultList(Vec<MiResult>),
    Empty,
}

/// A named value (`variable=value`).
#[derive(Debug)]
pub struct MiResult {
    pub variable: String,
    pub value: MiValue,
}

impl MiValue {
    pub open spec fn view(&self) -> VValue
        decreases self,
    {
        match self {
            MiValue::String(s) => VValue::Str(s@),
            MiValue::List(l) => VValue::List(
                Seq::new(
                    l.len() as nat,
                    |i: int|
                        if 0 <= i < l.len() {
                            l[i].view()
                        } else {
                            VValue::Nothing
                        },
                ),
            ),
            MiValue::Tuple(t) => VValue::Tuple(
                Seq::new(
                    t.len() as nat,
                    |i: int|
                        if 0 <= i < t.len() {
                            (t[i].variable@, t[i].value.view())
                        } else {
                            (Seq::empty(), VValue::Nothing)
                        },
                ),
            ),
            MiValue::ResultList(t) => VValue::ResultList(
                Seq::new(
                    t.len() as nat,
                    |i: int|
                        if 0 <= i < t.len() {
                            (t[i].variable@, t[i].value.view())
                        } else {
                            (Seq::empty(), VValue::Nothing)
                        },
                ),
            ),
            MiValue::Empty => VValue::Nothing,
        }
    }
}

impl MiResult {
    pub open spec fn view(&self) -> (Seq<char>, VValue) {
        (self.variable@, self.value@)
    }
}

/// The mathematical form of a sequence of named values.
pub open spec fn results_view(rs: Seq<MiResult>) -> Seq<(Seq<char>, VValue)> {
    Seq::new(rs.len(), |i: int| rs[i]@)
}

/// The mathematical form of a record.
pub enum VRecord {
    Result { token: Option<u64>, class: ResultClass, results: Seq<(Seq<char>, VValue)> },
    Async { token: Option<u64>, class: AsyncClass, results: Seq<(Seq<char>, VValue)> },
    Notification { class: NotificationClass, results: Seq<(Seq<char>, VValue)> },
    Console(Seq<char>),
    Target(Seq<char>),
    Log(Seq<char>),
}

/// One record of MI output.
#[derive(Debug)]
pub enum MiOutputRecord {
    Result { token: Option<u64>, class: ResultClass, results: Vec<MiResult> },
    Async { token: Option<u64>, class: AsyncClass, results: Vec<MiResult> },
    Notification { class: NotificationClass, results: Vec<MiResult> },
    Console(String),
    Target(String),
    Log(String),
}

impl MiOutputRecord {
    pub open spec fn view(&self) -> VRecord {
        match self {
            MiOutputRecord::Result { token, class, results } => VRecord::Result {
                token: *token,
                class: *class,
                results: results_view(results@),
            },
            MiOutputRecord::Async { token, class, results } => VRecord::Async {
                token: *token,
                class: *class,
                results: results_view(results@),
            },
            MiOutputRecord::Notification { class, results } => VRecord::Notification {
                class: *class,
                results: results_view(results@),
            },
            MiOutputRecord::Console(s) => VRecord::Console(s@),
            MiOutputRecord::Target(s) => VRecord::Target(s@),
            MiOutputRecord::Log(s) => VRecord::Log(s@),
        }
    }
}

/// A breakpoint as the debugger reports it.
#[derive(Debug, Clone)]
pub struct Breakpoint {
    pub number: String,
    pub breakpoint_type: String,
    pub disposition: String,
    pub enabled: bool,
    pub addr: Option<String>,
    pub func: Option<String>,
    pub file: Option<String>,
    pub fullname: Option<String>,
    pub line: Option<u64>,
    pub thread_groups: Option<Vec<String>>,
    pub times: u64,
    pub original_location: Option<String>,
    pub condition: Option<String>,
    pub ignore_count: Option<u64>,
}

/// Which memory accesses trigger a watchpoint.
#[derive(Debug, Clone, Copy, PartialEq, Eq, Structural)]
pub enum WatchpointType {
    Write,
    Read,
    Access,
}

/// A watchpoint as the debugger reports it.
#[derive(Debug, Clone)]
pub struct Watchpoint {
    pub number: String,
    pub watchpoint_type: WatchpointType,
    pub enabled: bool,
    pub addr: String,
    pub exp: Option<String>,
    pub size: Option<u64>,
    pub value: Option<String>,
    pub old_value: Option<String>,
    pub times: u64,
    pub condition: Option<String>,
}

/// A stack frame.
#[derive(Debug, Clone)]
pub struct Frame {
    pub level: u64,
    pub addr: String,
    pub func: Option<String>,
    pub file: Option<String>,
    pub fullname: Option<String>,
    pub line: Option<u64>,
    pub arch: Option<String>,
}

/// A thread of the inferior.
#[derive(Debug, Clone)]
pub struct Thread {
    pub id: String,
    pub target_id: String,
    pub name: Option<String>,
    pub frame: Option<Frame>,
    pub state: ThreadState,
    pub core: Option<u64>,
}

#[derive(Debug, Clone, Copy, PartialEq, Eq, Structural)]
pub enum ThreadState {
    Stopped,
    Running,
}

/// A variable object.
#[derive(Debug)]
pub struct Variable {
    pub name: String,
    pub value: Option<String>,
    pub var_type: Option<String>,
    pub attributes: Option<Vec<String>>,
    pub children: Option<Vec<Variable>>,
}

/// A machine register.
#[derive(Debug, Clone)]
pub struct Register {
    pub number: u64,
    pub name: String,
    pub value: String,
}

/// A block of target memory: its start address and its contents as hex text.
#[derive(Debug, Clone)]
pub struct MemoryContent {
    pub addr: String,
    pub data: Vec<String>,
}

/// The arguments of a frame.
#[derive(Debug, Clone)]
pub struct StackArgs {
    pub frame: Frame,
    pub args: Vec<Argument>,
}

#[derive(Debug, Clone)]
pub struct Argument {
    pub name: String,
    pub value: Option<String>,
}

/// What the engine knows of the debugging session.
#[derive(Debug, Clone)]
pub struct GdbSessionState {
    pub connected: bool,
    pub running: bool,
    pub target_remote: bool,
    pub architecture: Option<String>,
    pub executable: Option<String>,
    pub current_thread: Option<String>,
    pub current_frame: Option<u64>,
}

impl Default for GdbSessionState {
    fn default() -> (r: GdbSessionState)
        ensures
            !r.connected,
            !r.running,
            !r.target_remote,
            r.architecture is None,
            r.executable is None,
            r.current_thread is None,
            r.current_frame is None,
    {
        GdbSessionState {
            connected: false,
            running: false,
            target_remote: false,
            architecture: None,
            executable: None,
            current_thread: None,
            current_frame: None,
        }
    }
}

/// Where a piece of debugger output came from.
#[derive(Debug, Clone, Copy, PartialEq, Eq, Structural)]
pub enum OutputChannel {
    Console,
    Target,
    Log,
}

/// What the engine publishes to its subscriber.
#[derive(Debug, Clone)]
pub enum GdbEvent {
    Stopped { reason: StopReason, frame: Option<Frame>, thread_id: Option<String> },
    Running { thread_id: Option<String> },
    BreakpointCreated { breakpoint: Breakpoint },
    BreakpointModified { breakpoint: Breakpoint },
    BreakpointDeleted { number: String },
    ThreadCreated { id: String, group_id: String },
    ThreadExited { id: String, group_id: String },
    ThreadSelected { id: String },
    Error { message: String },
    Output { channel: OutputChannel, content: String },
}

/// How the engine launches the debugger.
#[derive(Debug, Clone)]
pub struct GdbConfig {
    pub gdb_path: String,
    pub gdb_args: Vec<String>,
    pub timeout_ms: u64,
    pub architecture: Option<String>,
}

impl Default for GdbConfig {
    fn default() -> (r: GdbConfig)
        ensures
            r.gdb_path@ == "gdb-multiarch"@,
            r.gdb_args@.len() == 1,
            r.gdb_args@[0]@ == "--interpreter=mi2"@,
            r.timeout_ms == 30000,
            r.architecture is None,
    {
        let mut args: Vec<String> = Vec::new();
        args.push(String::from_str("--interpreter=mi2"));
        GdbConfig {
            gdb_path: String::from_str("gdb-multiarch"),
            gdb_args: args,
            timeout_ms: 30000,
            architecture: None,
        }
    }
}

/// Where a remote target is reached: TCP or a serial device.
#[derive(Debug, Clone)]
pub enum RemoteTargetConfig {
    Tcp { host: String, port: u16 },
    Serial { port: String, baud_rate: Option<u32> },
}

/// The address the debugger is given for a remote target.
pub open spec fn target_text(c: RemoteTargetConfig) -> Seq<char> {
    match c {
        RemoteTargetConfig::Tcp { host, port } => host@ + ":"@ + decimal_text(port as nat),
        RemoteTargetConfig::Serial { port, .. } => port@,
    }
}

impl RemoteTargetConfig {
    /// `host:port` for TCP, the device path for a serial line.
    pub fn to_target_string(&self) -> (r: String)
        ensures
            r@ == target_text(*self),
    {
        match self {
            RemoteTargetConfig::Tcp { host, port } => {
                let mut s = host.clone();
                s.append(":");
                let p = decimal_string(*port as u64);
                s.append(p.as_str());
                s
            },
            RemoteTargetConfig::Serial { port, .. } => port.clone(),
        }
    }
}

/// The kinds of failure the engine reports.
#[derive(Debug, Clone, Copy, PartialEq, Eq, Structural)]
pub enum GdbErrorKind {
    StartupError,
    NotStarted,
    AlreadyStarted,
    WriteError,
    Timeout,
    CommandError,
    ProtocolError,
    ParseError,
}

/// A failure, with its kind and a message.
#[derive(Debug, Clone)]
pub struct GdbError {
    pub kind: GdbErrorKind,
    pub message: String,
}

impl GdbError {
    /// A failure of the given kind.
    pub fn new(kind: GdbErrorKind, message: &str) -> (r: GdbError)
        ensures
            r.kind == kind,
            r.message@ == message@,
    {
        GdbError { kind, message: String::from_str(message) }
    }
}


pub open spec fn opt_view(o: Option<String>) -> Option<Seq<char>> {
    match o {
        Some(s) => Some(s@),
        None => None,
    }
}

pub open spec fn texts_view(v: Seq<String>) -> Seq<Seq<char>> {
    Seq::new(v.len(), |i: int| v[i]@)
}

/// The mathematical form of a breakpoint.
pub struct VBreakpoint {
    pub number: Seq<char>,
    pub breakpoint_type: Seq<char>,
    pub disposition: Seq<char>,
    pub enabled: bool,
    pub addr: Option<Seq<char>>,
    pub func: Option<Seq<char>>,
    pub file: Option<Seq<char>>,
    pub fullname: Option<Seq<char>>,
    pub line: Option<u64>,
    pub thread_groups: Option<Seq<Seq<char>>>,
    pub times: u64,
    pub original_location: Option<Seq<char>>,
    pub condition: Option<Seq<char>>,
    pub ignore_count: Option<u64>,
}

impl Breakpoint {
    pub open spec fn view(&self) -> VBreakpoint {
        VBreakpoint {
            number: self.number@,
            breakpoint_type: self.breakpoint_type@,
            disposition: self.disposition@,
            enabled: self.enabled,
            addr: opt_view(self.addr),
            func: opt_view(self.func),
            file: opt_view(self.file),
            fullname: opt_view(self.fullname),
            line: self.line,
            thread_groups: match self.thread_groups {
                Some(v) => Some(texts_view(v@)),
                None => None,
            },
            times: self.times,
            original_location: opt_view(self.original_location),
            condition: opt_view(self.condition),
            ignore_count: self.ignore_count,
        }
    }
}

/// The mathematical form of a watchpoint.
pub struct VWatchpoint {
    pub number: Seq<char>,
    pub watchpoint_type: WatchpointType,
    pub enabled: bool,
    pub addr: Seq<char>,
    pub exp: Option<Seq<char>>,
    pub size: Option<u64>,
    pub value: Option<Seq<char>>,
    pub old_value: Option<Seq<char>>,
    pub times: u64,
    pub condition: Option<Seq<char>>,
}

impl Watchpoint {
    pub open spec fn view(&self) -> VWatchpoint {
        VWatchpoint {
            number: self.number@,
            watchpoint_type: self.watchpoint_type,
            enabled: self.enabled,
            addr: self.addr@,
            exp: opt_view(self.exp),
            size: self.size,
            value: opt_view(self.value),
            old_value: opt_view(self.old_value),
            times: self.times,
            condition: opt_view(self.condition),
        }
    }
}

/// The mathematical form of a frame.
pub struct VFrame {
    pub level: u64,
    pub addr: Seq<char>,
    pub func: Option<Seq<char>>,
    pub file: Option<Seq<char>>,
    pub fullname: Option<Seq<char>>,
    pub line: Option<u64>,
    pub arch: Option<Seq<char>>,
}

impl Frame {
    pub open spec fn view(&self) -> VFrame {
        VFrame {
            level: self.level,
            addr: self.addr@,
            func: opt_view(self.func),
            file: opt_view(self.file),
            fullname: opt_view(self.fullname),
            line: self.line,
            arch: opt_view(self.arch),
        }
    }
}

pub open spec fn opt_frame_view(o: Option<Frame>) -> Option<VFrame> {
    match o {
        Some(f) => Some(f@),
        None => None,
    }
}

/// The mathematical form of a thread.
pub struct VThread {
    pub id: Seq<char>,
    pub target_id: Seq<char>,
    pub name: Option<Seq<char>>,
    pub frame: Option<VFrame>,
    pub state: ThreadState,
    pub core: Option<u64>,
}

impl Thread {
    pub open spec fn view(&self) -> VThread {
        VThread {
            id: self.id@,
            target_id: self.target_id@,
            name: opt_view(self.name),
            frame: opt_frame_view(self.frame),
            state: self.state,
            core: self.core,
        }
    }
}

/// The mathematical form of a variable object (its children left aside).
pub struct VVariable {
    pub name: Seq<char>,
    pub value: Option<Seq<char>>,
    pub var_type: Option<Seq<char>>,
    pub attributes: Option<Seq<Seq<char>>>,
    pub has_children: bool,
}

impl Variable {
    pub open spec fn view(&self) -> VVariable {
        VVariable {
            name: self.name@,
            value: opt_view(self.value),
            var_type: opt_view(self.var_type),
            attributes: match self.attributes {
                Some(v) => Some(texts_view(v@)),
                None => None,
            },
            has_children: self.children is Some,
        }
    }
}

/// The mathematical form of a register.
pub struct VRegister {
    pub number: u64,
    pub name: Seq<char>,
    pub value: Seq<char>,
}

impl Register {
    pub open spec fn view(&self) -> VRegister {
        VRegister { number: self.number, name: self.name@, value: self.value@ }
    }
}

/// The mathematical form of a block of memory.
pub struct VMemory {
    pub addr: Seq<char>,
    pub data: Seq<Seq<char>>,
}

impl MemoryContent {
    pub open spec fn view(&self) -> VMemory {
        VMemory { addr: self.addr@, data: texts_view(self.data@) }
    }
}

} // verus!
