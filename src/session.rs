//! The decisions of a pseudo-terminal session: which shell to start, the
//! console size, which operations its state allows, and what to release,
//! in which order, when setup fails or the session ends.
use vstd::prelude::*;

verus! {

/// The shells that a session can be started on by kind.
#[derive(Debug, Clone, Copy, PartialEq, Eq, Structural)]
pub enum ShellApp {
    CMD,
    PowerShell,
    Bash,
}

impl ShellApp {
    pub open spec fn path_spec(&self) -> Seq<char> {
        match self {
            ShellApp::CMD => "C:\\Windows\\System32\\cmd.exe"@,
            ShellApp::PowerShell => "C:\\Windows\\System32\\WindowsPowerShell\\v1.0\\powershell.exe"@,
            ShellApp::Bash => "C:\\msys64\\usr\\bin\\bash.exe"@,
        }
    }

    /// The fixed path of the shell's executable.
    pub fn path(&self) -> (r: &'static str)
        ensures
            r@ == self.path_spec(),
    {
        match self {
            ShellApp::CMD => "C:\\Windows\\System32\\cmd.exe",
            ShellApp::PowerShell => "C:\\Windows\\System32\\WindowsPowerShell\\v1.0\\powershell.exe",
            ShellApp::Bash => "C:\\msys64\\usr\\bin\\bash.exe",
        }
    }
}

/// The columns a console starts with.
pub const INITIAL_COLUMNS: u16 = 600;

/// The rows a console starts with.
pub const INITIAL_ROWS: u16 = 800;

/// The logical dimensions of a console.
#[derive(Debug, Clone, Copy, PartialEq, Eq, Structural)]
pub struct ConsoleSize {
    pub x: u16,
    pub y: u16,
}

impl ConsoleSize {
    pub fn new(columns: u16, rows: u16) -> (r: ConsoleSize)
        ensures
            r.x == columns,
            r.y == rows,
    {
        ConsoleSize { x: columns, y: rows }
    }

    /// The size a session's console is created with.
    pub fn initial() -> (r: ConsoleSize)
        ensures
            r.x == INITIAL_COLUMNS,
            r.y == INITIAL_ROWS,
    {
        ConsoleSize { x: INITIAL_COLUMNS, y: INITIAL_ROWS }
    }

    pub fn columns(&self) -> (r: u16)
        ensures
            r == self.x,
    {
        self.x
    }

    pub fn rows(&self) -> (r: u16)
        ensures
            r == self.y,
    {
        self.y
    }

    /// The size as the console's signed coordinates, each dimension capped
    /// at the largest one they can hold.
    pub fn to_coord(&self) -> (r: (i16, i16))
        ensures
            r.0 as int == if self.x > 32767 { 32767 } else { self.x as int },
            r.1 as int == if self.y > 32767 { 32767 } else { self.y as int },
    {
        (saturate_i16(self.x), saturate_i16(self.y))
    }
}

fn saturate_i16(v: u16) -> (r: i16)
    ensures
        r as int == if v > 32767 { 32767 } else { v as int },
{
    if v > 32767 {
        32767
    } else {
        v as i16
    }
}

/// What went wrong, with the platform's error code where it gave one.
#[derive(Debug, Clone, Copy, PartialEq, Eq, Structural)]
pub enum SessionError {
    /// Reserving or mapping memory failed.
    Allocation(i32),
    /// A pipe could not be created or opened.
    PipeCreation(i32),
    /// A read or write on one of the session's pipes failed.
    PipeIo(i32),
    /// The pseudo console could not be created, resized or destroyed.
    PseudoConsole(i32),
    /// The child process could not be started.
    ProcessSpawn(i32),
    /// The operation came after the session was torn down.
    HandleState,
}

/// Where a session is in its life.
#[derive(Debug, Clone, Copy, PartialEq, Eq, Structural)]
pub enum SessionState {
    Created,
    Running,
    /// A resize was handed to the console; `previous` is the size it had.
    Resizing { previous: ConsoleSize },
    Terminated,
}

/// The state of a session and the size its console was last given.
#[derive(Debug, Clone, Copy, PartialEq, Eq, Structural)]
pub struct SessionLifecycle {
    pub state: SessionState,
    pub size: ConsoleSize,
}

impl SessionLifecycle {
    /// The same session once torn down.
    pub open spec fn disposed(self) -> SessionLifecycle {
        SessionLifecycle { state: SessionState::Terminated, ..self }
    }

    /// Whether tearing the session down now has anything to release.
    pub open spec fn releases_on_dispose(self) -> bool {
        !(self.state is Terminated)
    }

    /// Whether the session's console can be resized now.
    pub open spec fn accepts_resize(self) -> bool {
        self.state is Running
    }

    /// Whether the session's streams can be read and written now.
    pub open spec fn accepts_io(self) -> bool {
        self.state is Running || self.state is Resizing
    }

    /// Checks that the session's streams may be used: a session that is
    /// not running refuses with `HandleState`.
    pub fn check_open(&self) -> (r: Result<(), SessionError>)
        ensures
            self.accepts_io() ==> r is Ok,
            !self.accepts_io() ==> r == Err::<(), SessionError>(SessionError::HandleState),
    {
        match self.state {
            SessionState::Running | SessionState::Resizing { .. } => Ok(()),
            _ => Err(SessionError::HandleState),
        }
    }

    /// A session whose resources are being set up, with the initial size.
    pub fn new() -> (r: SessionLifecycle)
        ensures
            r.state is Created,
            r.size == (ConsoleSize { x: INITIAL_COLUMNS, y: INITIAL_ROWS }),
    {
        SessionLifecycle { state: SessionState::Created, size: ConsoleSize::initial() }
    }

    /// Records the outcome of setting the session up: every step succeeded
    /// (`Ok`), or one failed with the given error, which the session then
    /// surfaces after it is torn down.
    pub fn finish_setup(&mut self, outcome: Result<(), SessionError>) -> (r: Result<(), SessionError>)
        requires
            old(self).state is Created,
        ensures
            r == outcome,
            final(self).size == old(self).size,
            outcome is Ok ==> final(self).state is Running,
            outcome is Err ==> final(self).state is Terminated,
    {
        self.state = match outcome {
            Ok(()) => SessionState::Running,
            Err(_) => SessionState::Terminated,
        };
        outcome
    }

    /// Starts a resize to `columns` by `rows`. On a running session the new
    /// size is recorded and returned, for the console to be given; any other
    /// state refuses with `HandleState` and is left as it is.
    pub fn resize(&mut self, columns: u16, rows: u16) -> (r: Result<ConsoleSize, SessionError>)
        ensures
            old(self).accepts_resize() ==> r == Ok::<ConsoleSize, SessionError>(
                ConsoleSize { x: columns, y: rows },
            ) && *final(self) == (SessionLifecycle {
                state: SessionState::Resizing { previous: old(self).size },
                size: ConsoleSize { x: columns, y: rows },
            }),
            !old(self).accepts_resize() ==> r == Err::<ConsoleSize, SessionError>(
                SessionError::HandleState,
            ) && *final(self) == *old(self),
    {
        match self.state {
            SessionState::Running => {
                let size = ConsoleSize::new(columns, rows);
                self.state = SessionState::Resizing { previous: self.size };
                self.size = size;
                Ok(size)
            },
            _ => Err(SessionError::HandleState),
        }
    }

    /// Ends a resize with what the console reported: its error code, if any.
    /// The session is running again either way; a resize the console
    /// refused leaves the size it had before.
    pub fn finish_resize(&mut self, outcome: Result<(), i32>) -> (r: Result<(), SessionError>)
        requires
            old(self).state is Resizing,
        ensures
            final(self).state is Running,
            match outcome {
                Ok(()) => r is Ok && final(self).size == old(self).size,
                Err(code) => r == Err::<(), SessionError>(SessionError::PseudoConsole(code))
                    && final(self).size == old(self).state->previous,
            },
    {
        let previous = match self.state {
            SessionState::Resizing { previous } => previous,
            _ => self.size,
        };
        self.state = SessionState::Running;
        match outcome {
            Ok(()) => Ok(()),
            Err(code) => {
                self.size = previous;
                Err(SessionError::PseudoConsole(code))
            },
        }
    }

    /// Tears the session down. Returns whether its resources are to be
    /// released now: only the first call after setup says so.
    pub fn dispose(&mut self) -> (release: bool)
        ensures
            release == old(self).releases_on_dispose(),
            *final(self) == old(self).disposed(),
    {
        let release = match self.state {
            SessionState::Terminated => false,
            _ => true,
        };
        self.state = SessionState::Terminated;
        release
    }
}

/// Tearing a session down twice releases its resources once: the second
/// time finds nothing to release and changes nothing.
pub proof fn lemma_dispose_idempotent(s: SessionLifecycle)
    ensures
        s.disposed().disposed() == s.disposed(),
        !s.disposed().releases_on_dispose(),
{
}

/// A torn-down session refuses every resize and every read or write, and a refused resize leaves the
/// session, its recorded size included, as it was.
pub proof fn lemma_resize_after_dispose(s: SessionLifecycle)
    ensures
        !s.disposed().accepts_resize(),
        !s.disposed().accepts_io(),
        s.disposed().size == s.size,
{
}

/// The kinds of resource that setting a session up acquires.
#[derive(Debug, Clone, Copy, PartialEq, Eq, Structural)]
pub enum Resource {
    /// A reserved address range kept for a later mapping.
    Placeholder,
    /// An anonymous shared-memory object.
    SharedSection,
    /// A mapped view of a shared-memory object.
    MappedView,
    /// One end of a pipe.
    PipeEnd,
    /// The pseudo console device.
    PseudoConsole,
    /// A child's startup attribute list.
    AttributeList,
    /// A child process and its main thread.
    Process,
}

/// `s` back to front.
pub open spec fn reversed<T>(s: Seq<T>) -> Seq<T> {
    Seq::new(s.len(), |i: int| s[s.len() - 1 - i])
}

/// The resources acquired so far, oldest first, so that a failing step can
/// release all of them, newest first.
pub struct Acquisitions {
    held: Vec<Resource>,
}

impl View for Acquisitions {
    type V = Seq<Resource>;

    closed spec fn view(&self) -> Seq<Resource> {
        self.held@
    }
}

impl Acquisitions {
    pub fn new() -> (r: Acquisitions)
        ensures
            r@ == Seq::<Resource>::empty(),
    {
        Acquisitions { held: Vec::new() }
    }

    /// Records that `resource` was acquired.
    pub fn acquire(&mut self, resource: Resource)
        ensures
            final(self)@ == old(self)@.push(resource),
    {
        self.held.push(resource);
    }

    /// Records that the newest resource was handed on to an owner that
    /// releases it, so that a later failure leaves it alone.
    pub fn hand_over(&mut self) -> (r: Option<Resource>)
        ensures
            old(self)@.len() == 0 ==> r is None && final(self)@ == old(self)@,
            old(self)@.len() > 0 ==> r == Some(old(self)@.last()) && final(self)@ == old(
                self,
            )@.drop_last(),
    {
        self.held.pop()
    }

    /// The number of resources held.
    pub fn len(&self) -> (r: usize)
        ensures
            r == self@.len(),
    {
        self.held.len()
    }

    /// The resources to release, newest first; none are held afterwards.
    pub fn release_all(&mut self) -> (r: Vec<Resource>)
        ensures
            r@ == reversed(old(self)@),
            final(self)@ == Seq::<Resource>::empty(),
    {
        let mut out: Vec<Resource> = Vec::new();
        let ghost start = self.held@;
        while self.held.len() > 0
            invariant
                start.len() == self.held@.len() + out@.len(),
                self.held@ == start.subrange(0, self.held@.len() as int),
                forall|i: int|
                    0 <= i < out@.len() ==> #[trigger] out@[i] == start[start.len() - 1 - i],
            decreases self.held@.len(),
        {
            let r = self.held.pop().unwrap();
            out.push(r);
        }
        assert(out@ =~= reversed(start));
        assert(self.held@ =~= Seq::<Resource>::empty());
        out
    }
}

/// A failed step releases exactly what the steps before it acquired, in the
/// reverse order of acquisition: the newest first, the oldest last.
pub proof fn lemma_release_reverses(acquired: Seq<Resource>)
    ensures
        reversed(acquired).len() == acquired.len(),
        acquired.len() > 0 ==> reversed(acquired)[0] == acquired.last(),
        acquired.len() > 0 ==> reversed(acquired).last() == acquired[0],
        reversed(reversed(acquired)) == acquired,
{
    assert(reversed(reversed(acquired)) =~= acquired);
}

/// The size of a startup attribute list, from a probe that asked for the
/// size with no buffer: a probe that reported no size fails with the
/// platform's `last_error`.
pub fn startup_config_size(probed: usize, last_error: i32) -> (r: Result<usize, SessionError>)
    ensures
        probed == 0 ==> r == Err::<usize, SessionError>(SessionError::ProcessSpawn(last_error)),
        probed != 0 ==> r == Ok::<usize, SessionError>(probed),
{
    if probed == 0 {
        Err(SessionError::ProcessSpawn(last_error))
    } else {
        Ok(probed)
    }
}

} // verus!
