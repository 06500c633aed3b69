use vstd::prelude::*;
use crate::MAX_TASKS;
use crate::error::WhyError;

verus! {

/// Index of a task slot; always below `MAX_TASKS`.
#[derive(Clone, Copy, PartialEq, Eq, Debug, Structural)]
pub struct TaskId(usize);

impl View for TaskId {
    type V = nat;

    closed spec fn view(&self) -> nat {
        self.0 as nat
    }
}

impl TaskId {
    #[verifier::type_invariant]
    pub closed spec fn in_range(self) -> bool {
        self.0 < MAX_TASKS
    }

    /// The slot index.
    pub fn id(&self) -> (r: usize)
        ensures
            r == self@,
            r < MAX_TASKS,
    {
        proof {
            use_type_invariant(self);
        }
        self.0
    }

    /// The id of slot `id`, or `None` when there is no such slot.
    pub fn new(id: usize) -> (r: Option<Self>)
        ensures
            r is Some <==> id < MAX_TASKS,
            r matches Some(t) ==> t@ == id,
    {
        if id >= MAX_TASKS {
            None
        } else {
            Some(TaskId(id))
        }
    }
}

/// Two task ids with the same slot index are the same id.
pub proof fn lemma_task_id_view_injective(a: TaskId, b: TaskId)
    ensures
        a@ == b@ ==> a == b,
{
}

/// Generation counter of a task slot; bumped each time the slot is freed.
pub type Gen = u8;

/// A reference to a task that stays valid only while the task it was made
/// for occupies its slot.
#[derive(Debug)]
pub struct TaskHandle {
    tid: TaskId,
    generation: Gen,
}

impl View for TaskHandle {
    /// Slot index and generation.
    type V = (nat, Gen);

    closed spec fn view(&self) -> (nat, Gen) {
        (self.tid@, self.generation)
    }
}

/// The packed form of a handle: generation in bits 8..16, slot in bits 0..8.
pub open spec fn handle_code(tid: nat, generation: Gen) -> u32 {
    (generation * 256 + tid) as u32
}

/// Whether `raw` names a slot in its low byte.
pub open spec fn code_names_slot(raw: u32) -> bool {
    raw % 256 < MAX_TASKS
}

/// The handle view a packed word decodes to.
pub open spec fn code_handle(raw: u32) -> (nat, Gen) {
    ((raw % 256) as nat, ((raw / 256) % 256) as Gen)
}

impl TaskHandle {
    /// The handle of slot `tid` at generation `generation`.
    pub fn new(tid: TaskId, generation: Gen) -> (r: Self)
        ensures
            r@ == (tid@, generation),
            r.spec_tid() == tid,
    {
        TaskHandle { tid, generation }
    }

    /// The slot the handle refers to.
    pub closed spec fn spec_tid(&self) -> TaskId {
        self.tid
    }

    /// The slot the handle refers to.
    #[verifier::when_used_as_spec(spec_tid)]
    pub fn tid(&self) -> (r: TaskId)
        ensures
            r == self.spec_tid(),
            r@ == self@.0,
    {
        self.tid
    }

    /// The generation the handle was made for.
    pub fn generation(&self) -> (r: Gen)
        ensures
            r == self@.1,
    {
        self.generation
    }

    /// Packs the handle into a word: 16 reserved bits, 8 bits of generation,
    /// 8 bits of slot.
    pub fn as_u32(&self) -> (r: u32)
        ensures
            r == handle_code(self@.0, self@.1),
    {
        let tid_val = self.tid.id() as u32;
        let gen_val = self.generation as u32;
        proof {
            assert((gen_val << 8u32) | tid_val == gen_val * 256 + tid_val) by (bit_vector)
                requires
                    tid_val < 32,
                    gen_val < 256,
            ;
        }
        (gen_val << 8) | tid_val
    }

    /// Rebuilds a handle from its packed form; `None` when the low byte names
    /// no slot.
    pub fn from_u32(raw: u32) -> (r: Option<Self>)
        ensures
            r is Some <==> code_names_slot(raw),
            r matches Some(h) ==> h@ == code_handle(raw),
    {
        let tid_val = (raw & 0xFF) as usize;
        let gen_val = ((raw >> 8) & 0xFF) as Gen;
        proof {
            assert(raw & 0xFF == raw % 256) by (bit_vector);
            assert((raw >> 8) & 0xFF == (raw / 256) % 256) by (bit_vector);
        }
        match TaskId::new(tid_val) {
            Some(tid) => Some(TaskHandle { tid, generation: gen_val }),
            None => None,
        }
    }
}

/// The slot a handle refers to is the first part of its view.
pub proof fn lemma_handle_tid(h: &TaskHandle)
    ensures
        h.spec_tid()@ == h@.0,
{
}

/// Two handles with the same view are the same handle.
pub proof fn lemma_handle_view_injective(a: TaskHandle, b: TaskHandle)
    ensures
        a@ == b@ ==> a == b,
{
}

/// Packing a handle and decoding the word gives the handle back.
pub proof fn lemma_handle_code_roundtrip(tid: nat, generation: Gen)
    requires
        tid < MAX_TASKS,
    ensures
        code_names_slot(handle_code(tid, generation)),
        code_handle(handle_code(tid, generation)) == (tid, generation),
{
    let c = generation * 256 + tid;
    assert(c < 0x1_0000);
    vstd::arithmetic::div_mod::lemma_fundamental_div_mod_converse(c, 256, generation as int, tid as int);
    assert(handle_code(tid, generation) == c);
}

/// Why a task waits.
#[derive(Debug, Clone, Copy, PartialEq, Eq, Structural)]
pub enum BlockReason {
    /// Asleep until the system tick count reaches the given (non-zero) value.
    Sleep(u64),
    /// Waiting on a mutex, semaphore or queue.
    WaitQueue,
}

/// What a suspended task returns to when it is resumed.
#[derive(Debug, Clone, Copy, PartialEq, Eq, Structural)]
pub enum ResumeContext {
    Ready,
    Blocked(BlockReason),
}

/// Life-cycle state of a task.
#[derive(Debug, Clone, Copy, PartialEq, Eq, Structural)]
pub enum TaskState {
    Ready,
    Running,
    Blocked(BlockReason),
    Suspended(ResumeContext),
    Zombie,
    Dead,
}

/// The state a resume context stands for.
pub open spec fn state_of_context(ctx: ResumeContext) -> TaskState {
    match ctx {
        ResumeContext::Ready => TaskState::Ready,
        ResumeContext::Blocked(reason) => TaskState::Blocked(reason),
    }
}

/// The context a state is suspended with: ready and running tasks resume
/// as ready, blocked ones stay blocked for the same reason; other states
/// cannot be suspended.
pub open spec fn context_of_state(state: TaskState) -> Result<ResumeContext, WhyError> {
    match state {
        TaskState::Ready | TaskState::Running => Ok(ResumeContext::Ready),
        TaskState::Blocked(reason) => Ok(ResumeContext::Blocked(reason)),
        _ => Err(WhyError::InvalidOperation),
    }
}

impl TaskState {
    /// The state's name.
    pub fn name(&self) -> (r: &'static str)
        ensures
            *self is Ready ==> r@ == "Ready"@,
            *self is Running ==> r@ == "Running"@,
            *self is Blocked ==> r@ == "Blocked"@,
            *self is Suspended ==> r@ == "Suspended"@,
            *self is Zombie ==> r@ == "Zombie"@,
            *self is Dead ==> r@ == "Dead"@,
    {
        match *self {
            TaskState::Ready => "Ready",
            TaskState::Running => "Running",
            TaskState::Blocked(_) => "Blocked",
            TaskState::Suspended(_) => "Suspended",
            TaskState::Zombie => "Zombie",
            TaskState::Dead => "Dead",
        }
    }
}

impl From<ResumeContext> for TaskState {
    fn from(value: ResumeContext) -> (r: Self) {
        match value {
            ResumeContext::Ready => TaskState::Ready,
            ResumeContext::Blocked(reason) => TaskState::Blocked(reason),
        }
    }
}

impl vstd::std_specs::convert::FromSpecImpl<ResumeContext> for TaskState {
    open spec fn obeys_from_spec() -> bool {
        true
    }

    open spec fn from_spec(v: ResumeContext) -> TaskState {
        state_of_context(v)
    }
}

impl TryFrom<TaskState> for ResumeContext {
    type Error = WhyError;

    fn try_from(value: TaskState) -> (r: Result<Self, Self::Error>) {
        match value {
            TaskState::Ready | TaskState::Running => Ok(ResumeContext::Ready),
            TaskState::Blocked(reason) => Ok(ResumeContext::Blocked(reason)),
            _ => Err(WhyError::InvalidOperation),
        }
    }
}

impl vstd::std_specs::convert::TryFromSpecImpl<TaskState> for ResumeContext {
    open spec fn obeys_try_from_spec() -> bool {
        true
    }

    open spec fn try_from_spec(v: TaskState) -> Result<ResumeContext, WhyError> {
        context_of_state(v)
    }
}

/// Suspending a state and resuming its context gives back a ready or
/// blocked state unchanged, and turns a running state into a ready one.
pub proof fn lemma_context_roundtrip(state: TaskState)
    ensures
        context_of_state(state) matches Ok(ctx) ==> state_of_context(ctx) == (if state
            is Running {
            TaskState::Ready
        } else {
            state
        }),
        context_of_state(state) is Ok <==> (state is Ready || state is Running || state is Blocked),
{
}

/// Every resume context is the context of the state it stands for.
pub proof fn lemma_state_roundtrip(ctx: ResumeContext)
    ensures
        context_of_state(state_of_context(ctx)) == Ok::<ResumeContext, WhyError>(ctx),
{
}

} // verus!
