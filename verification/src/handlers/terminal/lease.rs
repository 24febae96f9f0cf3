//! The lease that a terminal runs under: acquiring it, finding the process again
//! that a terminal is bound to, restarting and releasing it.
use vstd::prelude::*;
use vstd::string::*;
use crate::text::{join, joined, opt_str, opt_text, same_text, text2, texts};

verus! {

/// Who owns a lease.
#[derive(Debug)]
pub struct LeaseOwner {
    pub kind: String,
    pub owner_id: String,
}

/// What a lease owner says.
pub struct OwnerModel {
    pub kind: Seq<char>,
    pub owner_id: Seq<char>,
}

impl View for LeaseOwner {
    type V = OwnerModel;

    open spec fn view(&self) -> OwnerModel {
        OwnerModel { kind: self.kind@, owner_id: self.owner_id@ }
    }
}

/// What tells one life of a lease from all others.
#[derive(Debug)]
pub struct LeaseFence {
    pub lease_id: String,
    pub owner: LeaseOwner,
    pub incarnation_id: String,
    pub lease_epoch: u64,
}

/// What a fence says.
pub struct FenceModel {
    pub lease_id: Seq<char>,
    pub owner: OwnerModel,
    pub incarnation_id: Seq<char>,
    pub lease_epoch: u64,
}

impl View for LeaseFence {
    type V = FenceModel;

    open spec fn view(&self) -> FenceModel {
        FenceModel {
            lease_id: self.lease_id@,
            owner: self.owner@,
            incarnation_id: self.incarnation_id@,
            lease_epoch: self.lease_epoch,
        }
    }
}

/// A copy of a fence.
pub fn clone_fence(fence: &LeaseFence) -> (copy: LeaseFence)
    ensures
        copy == *fence,
{
    LeaseFence {
        lease_id: fence.lease_id.clone(),
        owner: LeaseOwner {
            kind: fence.owner.kind.clone(),
            owner_id: fence.owner.owner_id.clone(),
        },
        incarnation_id: fence.incarnation_id.clone(),
        lease_epoch: fence.lease_epoch,
    }
}

/// Where a process stands.
#[derive(Clone, Copy, Debug)]
pub enum ProcessStatus {
    Starting,
    Running,
    Exited { exit_code: Option<i32>, restartable: bool, executor_lost: bool },
    Other,
}

impl ProcessStatus {
    /// Whether the process is alive.
    pub open spec fn is_live(self) -> bool {
        self is Starting || self is Running
    }

    /// Whether the process is alive.
    pub fn live(&self) -> (live: bool)
        ensures
            live == self.is_live(),
    {
        match self {
            ProcessStatus::Starting => true,
            ProcessStatus::Running => true,
            _ => false,
        }
    }

    /// Whether a restart of the lease takes the process along: it is alive, or was
    /// lost with its executor and may be started again.
    pub open spec fn is_restartable(self) -> bool {
        self.is_live() || (self matches ProcessStatus::Exited { restartable, executor_lost, .. }
            && restartable && executor_lost)
    }

    /// Whether a restart of the lease takes the process along.
    pub fn restarts(&self) -> (restarts: bool)
        ensures
            restarts == self.is_restartable(),
    {
        match self {
            ProcessStatus::Starting => true,
            ProcessStatus::Running => true,
            ProcessStatus::Exited { restartable, executor_lost, .. } => *restartable
                && *executor_lost,
            ProcessStatus::Other => false,
        }
    }
}

/// A process under a lease.
#[derive(Debug)]
pub struct ProcessState {
    pub key: String,
    pub generation: u64,
    pub status: ProcessStatus,
}

/// A lease that occupies a cell. No two of its processes have the same key.
#[derive(Debug)]
pub struct LeaseState {
    pub lease_id: String,
    pub owner: LeaseOwner,
    pub incarnation_id: String,
    pub awaiting_reclaim: bool,
    pub processes: Vec<ProcessState>,
}

/// A cell of an executor, with the lease that occupies it.
#[derive(Debug)]
pub struct CellState {
    pub lease_epoch: u64,
    pub path: String,
    pub lease: Option<LeaseState>,
}

/// The process that a terminal is bound to.
#[derive(Debug)]
pub struct TerminalBinding {
    pub fence: LeaseFence,
    pub process_key: String,
    pub process_generation: u64,
}

/// What a binding says.
pub struct BindingModel {
    pub fence: FenceModel,
    pub process_key: Seq<char>,
    pub process_generation: u64,
}

impl View for TerminalBinding {
    type V = BindingModel;

    open spec fn view(&self) -> BindingModel {
        BindingModel {
            fence: self.fence@,
            process_key: self.process_key@,
            process_generation: self.process_generation,
        }
    }
}

/// The first process from `from` on with the given key.
pub open spec fn process_with_key(processes: Seq<ProcessState>, key: Seq<char>, from: int) -> Option<
    int,
>
    decreases processes.len() - from,
{
    if from >= processes.len() {
        None
    } else if processes[from].key@ == key {
        Some(from)
    } else {
        process_with_key(processes, key, from + 1)
    }
}

/// The first process from `from` on of the given generation; without one, any.
pub open spec fn process_of_generation(
    processes: Seq<ProcessState>,
    generation: Option<u64>,
    from: int,
) -> Option<int>
    decreases processes.len() - from,
{
    if from >= processes.len() {
        None
    } else if generation is None || generation == Some(processes[from].generation) {
        Some(from)
    } else {
        process_of_generation(processes, generation, from + 1)
    }
}

/// The process that a terminal means: the one with its slug as key, or else the
/// only one of the recorded generation.
pub open spec fn meant_process(
    processes: Seq<ProcessState>,
    slug: Option<Seq<char>>,
    generation: Option<u64>,
) -> Option<int> {
    let by_key = match slug {
        Some(key) => process_with_key(processes, key, 0),
        None => None,
    };
    match by_key {
        Some(at) => Some(at),
        None => match process_of_generation(processes, generation, 0) {
            Some(at) => if process_of_generation(processes, generation, at + 1) is None {
                Some(at)
            } else {
                None
            },
            None => None,
        },
    }
}

/// The binding that one cell gives a terminal.
pub open spec fn binding_in(
    cell: CellState,
    lease_id: Seq<char>,
    incarnation_id: Seq<char>,
    lease_epoch: u64,
    slug: Option<Seq<char>>,
    generation: Option<u64>,
) -> Option<BindingModel> {
    match cell.lease {
        Some(lease) => if cell.lease_epoch == lease_epoch && lease.lease_id@ == lease_id
            && lease.incarnation_id@ == incarnation_id {
            match meant_process(lease.processes@, slug, generation) {
                Some(at) => Some(
                    BindingModel {
                        fence: FenceModel {
                            lease_id: lease.lease_id@,
                            owner: lease.owner@,
                            incarnation_id: lease.incarnation_id@,
                            lease_epoch: cell.lease_epoch,
                        },
                        process_key: lease.processes@[at].key@,
                        process_generation: lease.processes@[at].generation,
                    },
                ),
                None => None,
            }
        } else {
            None
        },
        None => None,
    }
}

/// The first binding that the cells from `from` on give a terminal.
pub open spec fn binding_from(
    cells: Seq<CellState>,
    lease_id: Seq<char>,
    incarnation_id: Seq<char>,
    lease_epoch: u64,
    slug: Option<Seq<char>>,
    generation: Option<u64>,
    from: int,
) -> Option<BindingModel>
    decreases cells.len() - from,
{
    if from >= cells.len() {
        None
    } else {
        match binding_in(cells[from], lease_id, incarnation_id, lease_epoch, slug, generation) {
            Some(binding) => Some(binding),
            None => binding_from(
                cells,
                lease_id,
                incarnation_id,
                lease_epoch,
                slug,
                generation,
                from + 1,
            ),
        }
    }
}

/// What an optional binding says.
pub open spec fn binding_model(binding: Option<TerminalBinding>) -> Option<BindingModel> {
    match binding {
        Some(found) => Some(found@),
        None => None,
    }
}

/// The first process from `from` on with the given key.
fn find_key(processes: &Vec<ProcessState>, key: &str) -> (at: Option<usize>)
    ensures
        match at {
            Some(i) => process_with_key(processes@, key@, 0) == Some(i as int) && i
                < processes@.len(),
            None => process_with_key(processes@, key@, 0) is None,
        },
{
    let mut i: usize = 0;
    while i < processes.len()
        invariant
            i <= processes@.len(),
            process_with_key(processes@, key@, i as int) == process_with_key(processes@, key@, 0),
        decreases processes.len() - i,
    {
        if same_text(processes[i].key.as_str(), key) {
            return Some(i);
        }
        i += 1;
    }
    None
}

/// The first process from `from` on of the given generation.
fn find_generation(processes: &Vec<ProcessState>, generation: Option<u64>, from: usize) -> (at:
    Option<usize>)
    ensures
        match at {
            Some(i) => process_of_generation(processes@, generation, from as int) == Some(
                i as int,
            ) && i < processes@.len(),
            None => process_of_generation(processes@, generation, from as int) is None,
        },
{
    let mut i: usize = from;
    while i < processes.len()
        invariant
            process_of_generation(processes@, generation, i as int) == process_of_generation(
                processes@,
                generation,
                from as int,
            ),
        decreases processes.len() - i,
    {
        let fits = match generation {
            Some(wanted) => processes[i].generation == wanted,
            None => true,
        };
        if fits {
            return Some(i);
        }
        i += 1;
    }
    None
}

/// The process that a terminal means.
fn find_process(processes: &Vec<ProcessState>, slug: Option<&str>, generation: Option<u64>) -> (at:
    Option<usize>)
    ensures
        match at {
            Some(i) => meant_process(processes@, opt_str(slug), generation) == Some(i as int) && i
                < processes@.len(),
            None => meant_process(processes@, opt_str(slug), generation) is None,
        },
{
    if let Some(key) = slug {
        if let Some(at) = find_key(processes, key) {
            return Some(at);
        }
    }
    let _count: usize = processes.len();
    match find_generation(processes, generation, 0) {
        Some(at) => {
            if find_generation(processes, generation, at + 1).is_none() {
                Some(at)
            } else {
                None
            }
        },
        None => None,
    }
}

/// Finds the process that a terminal is bound to among the cells of the fleet: in
/// the life of the lease that it recorded, by its slug or as the only process of
/// its generation.
pub fn terminal_binding_from_cells(
    cells: &Vec<CellState>,
    lease_id: &str,
    incarnation_id: &str,
    lease_epoch: u64,
    slug: Option<&str>,
    process_generation: Option<u64>,
) -> (binding: Option<TerminalBinding>)
    ensures
        binding_model(binding) == binding_from(
            cells@,
            lease_id@,
            incarnation_id@,
            lease_epoch,
            opt_str(slug),
            process_generation,
            0,
        ),
{
    let mut i: usize = 0;
    while i < cells.len()
        invariant
            i <= cells@.len(),
            binding_from(
                cells@,
                lease_id@,
                incarnation_id@,
                lease_epoch,
                opt_str(slug),
                process_generation,
                i as int,
            ) == binding_from(
                cells@,
                lease_id@,
                incarnation_id@,
                lease_epoch,
                opt_str(slug),
                process_generation,
                0,
            ),
        decreases cells.len() - i,
    {
        let cell = &cells[i];
        if let Some(lease) = &cell.lease {
            if cell.lease_epoch == lease_epoch && same_text(lease.lease_id.as_str(), lease_id)
                && same_text(lease.incarnation_id.as_str(), incarnation_id) {
                if let Some(at) = find_process(&lease.processes, slug, process_generation) {
                    return Some(
                        TerminalBinding {
                            fence: LeaseFence {
                                lease_id: lease.lease_id.clone(),
                                owner: LeaseOwner {
                                    kind: lease.owner.kind.clone(),
                                    owner_id: lease.owner.owner_id.clone(),
                                },
                                incarnation_id: lease.incarnation_id.clone(),
                                lease_epoch: cell.lease_epoch,
                            },
                            process_key: lease.processes[at].key.clone(),
                            process_generation: lease.processes[at].generation,
                        },
                    );
                }
            }
        }
        i += 1;
    }
    None
}

/// A binding belongs to the life of the lease that was asked for.
pub proof fn law_binding_keeps_the_fence(
    cells: Seq<CellState>,
    lease_id: Seq<char>,
    incarnation_id: Seq<char>,
    lease_epoch: u64,
    slug: Option<Seq<char>>,
    generation: Option<u64>,
    from: int,
)
    ensures
        match binding_from(cells, lease_id, incarnation_id, lease_epoch, slug, generation, from) {
            Some(binding) => binding.fence.lease_id == lease_id && binding.fence.incarnation_id
                == incarnation_id && binding.fence.lease_epoch == lease_epoch,
            None => true,
        },
    decreases cells.len() - from,
{
    if from < cells.len() {
        law_binding_keeps_the_fence(
            cells,
            lease_id,
            incarnation_id,
            lease_epoch,
            slug,
            generation,
            from + 1,
        );
    }
}

/// What the row of a running terminal records of its process.
#[derive(Debug)]
pub struct RecordedBinding {
    pub slug: Option<String>,
    pub lease_id: Option<String>,
    pub incarnation_id: Option<String>,
    pub lease_epoch: Option<u64>,
    pub process_generation: Option<u64>,
}

/// The binding of a terminal that is not in memory, or why there is none.
pub open spec fn recorded_binding(
    session_id: Seq<char>,
    row: Result<Option<RecordedBinding>, String>,
    cells: Seq<CellState>,
) -> Result<BindingModel, Seq<char>> {
    match row {
        Err(error) => Err(error@),
        Ok(None) => Err("Terminal session not running: "@ + session_id),
        Ok(Some(recorded)) => match (
            recorded.lease_id,
            recorded.incarnation_id,
            recorded.lease_epoch,
        ) {
            (None, _, _) => Err(
                "Terminal session has no retained executor lease: "@ + session_id,
            ),
            (Some(_), None, _) => Err(
                "Terminal session has no retained lease incarnation: "@ + session_id,
            ),
            (Some(_), Some(_), None) => Err(
                "Terminal session has no retained lease epoch: "@ + session_id,
            ),
            (Some(lease_id), Some(incarnation_id), Some(lease_epoch)) => match binding_from(
                cells,
                lease_id@,
                incarnation_id@,
                lease_epoch,
                opt_text(recorded.slug),
                recorded.process_generation,
                0,
            ) {
                Some(binding) => Ok(binding),
                None => Err("Terminal executor lease is not connected: "@ + session_id),
            },
        },
    }
}

/// Finds the binding of a terminal that is not in memory.
pub fn persisted_terminal_binding_by_session(
    session_id: &str,
    row: Result<Option<RecordedBinding>, String>,
    cells: &Vec<CellState>,
) -> (binding: Result<TerminalBinding, String>)
    ensures
        match (binding, recorded_binding(session_id@, row, cells@)) {
            (Ok(found), Ok(model)) => found@ == model,
            (Err(error), Err(reason)) => error@ == reason,
            _ => false,
        },
{
    let recorded = match row {
        Err(error) => return Err(error),
        Ok(None) => return Err(text2("Terminal session not running: ", session_id)),
        Ok(Some(recorded)) => recorded,
    };
    let lease_id = match &recorded.lease_id {
        Some(lease_id) => lease_id,
        None => {
            return Err(text2("Terminal session has no retained executor lease: ", session_id));
        },
    };
    let incarnation_id = match &recorded.incarnation_id {
        Some(incarnation_id) => incarnation_id,
        None => {
            return Err(text2("Terminal session has no retained lease incarnation: ", session_id));
        },
    };
    let lease_epoch: u64 = match recorded.lease_epoch {
        Some(lease_epoch) => lease_epoch,
        None => {
            return Err(text2("Terminal session has no retained lease epoch: ", session_id));
        },
    };
    let slug = match &recorded.slug {
        Some(slug) => Some(slug.as_str()),
        None => None,
    };
    match terminal_binding_from_cells(
        cells,
        lease_id.as_str(),
        incarnation_id.as_str(),
        lease_epoch,
        slug,
        recorded.process_generation,
    ) {
        Some(binding) => Ok(binding),
        None => Err(text2("Terminal executor lease is not connected: ", session_id)),
    }
}

/// The keys of the processes of a lease that a restart takes along.
pub open spec fn restartable_in(processes: Seq<ProcessState>, k: int) -> Seq<Seq<char>>
    decreases k,
{
    if k <= 0 {
        Seq::empty()
    } else {
        let before = restartable_in(processes, k - 1);
        if processes[k - 1].status.is_restartable() {
            before.push(processes[k - 1].key@)
        } else {
            before
        }
    }
}

/// The keys of the processes in the first `k` cells that a restart of the lease
/// takes along.
pub open spec fn restartable_keys(cells: Seq<CellState>, lease_id: Seq<char>, k: int) -> Seq<
    Seq<char>,
>
    decreases k,
{
    if k <= 0 {
        Seq::empty()
    } else {
        let before = restartable_keys(cells, lease_id, k - 1);
        match cells[k - 1].lease {
            Some(lease) => if lease.lease_id@ == lease_id {
                before + restartable_in(lease.processes@, lease.processes@.len() as int)
            } else {
                before
            },
            None => before,
        }
    }
}

/// Adds the keys of the processes that a restart takes along.
fn add_restartable(keys: &mut Vec<String>, processes: &Vec<ProcessState>)
    ensures
        texts(final(keys)@) == texts(old(keys)@) + restartable_in(
            processes@,
            processes@.len() as int,
        ),
{
    let ghost start = texts(keys@);
    let mut k: usize = 0;
    assert(start + Seq::<Seq<char>>::empty() =~= start);
    while k < processes.len()
        invariant
            k <= processes@.len(),
            texts(keys@) == start + restartable_in(processes@, k as int),
        decreases processes.len() - k,
    {
        let ghost before = texts(keys@);
        let ghost found = restartable_in(processes@, k as int);
        if processes[k].status.restarts() {
            let key = processes[k].key.clone();
            let ghost said = key@;
            keys.push(key);
            assert(texts(keys@) =~= before.push(said));
            assert(start + found.push(said) =~= (start + found).push(said));
        }
        k += 1;
    }
}

/// The keys of the processes that a restart of a lease takes along.
pub fn restartable_processes(cells: &Vec<CellState>, lease_id: &str) -> (keys: Vec<String>)
    ensures
        texts(keys@) == restartable_keys(cells@, lease_id@, cells@.len() as int),
{
    let mut keys: Vec<String> = Vec::new();
    assert(texts(keys@) =~= Seq::empty());
    let mut k: usize = 0;
    while k < cells.len()
        invariant
            k <= cells@.len(),
            texts(keys@) == restartable_keys(cells@, lease_id@, k as int),
        decreases cells.len() - k,
    {
        if let Some(lease) = &cells[k].lease {
            if same_text(lease.lease_id.as_str(), lease_id) {
                add_restartable(&mut keys, &lease.processes);
            }
        }
        k += 1;
    }
    keys
}

/// The row of a terminal under a lease.
#[derive(Debug)]
pub struct LeaseRow {
    pub slug: String,
    pub status: String,
    pub session_id: String,
}

/// Whether a restart of the lease starts the terminal again: it is not closing,
/// and is running, recovering or bound to a process that is taken along.
pub open spec fn row_restarts(row: LeaseRow, keys: Seq<Seq<char>>) -> bool {
    row.status@ != "closing"@ && (row.status@ == "running"@ || row.status@ == "recovering"@
        || keys.contains(row.session_id@))
}

/// The slugs of the first `k` rows that a restart starts again.
pub open spec fn restart_slugs(rows: Seq<LeaseRow>, keys: Seq<Seq<char>>, k: int) -> Seq<Seq<char>>
    decreases k,
{
    if k <= 0 {
        Seq::empty()
    } else {
        let before = restart_slugs(rows, keys, k - 1);
        if row_restarts(rows[k - 1], keys) {
            before.push(rows[k - 1].slug@)
        } else {
            before
        }
    }
}

/// The slugs of the terminals under a lease that a restart starts again, in the
/// order of the rows.
pub fn terminal_slugs_for_lease(rows: &Vec<LeaseRow>, restartable: &Vec<String>) -> (slugs: Vec<
    String,
>)
    ensures
        texts(slugs@) == restart_slugs(rows@, texts(restartable@), rows@.len() as int),
{
    let mut slugs: Vec<String> = Vec::new();
    assert(texts(slugs@) =~= Seq::empty());
    let mut k: usize = 0;
    while k < rows.len()
        invariant
            k <= rows@.len(),
            texts(slugs@) == restart_slugs(rows@, texts(restartable@), k as int),
        decreases rows.len() - k,
    {
        let ghost before = texts(slugs@);
        let row = &rows[k];
        if !same_text(row.status.as_str(), "closing") && (same_text(row.status.as_str(), "running")
            || same_text(row.status.as_str(), "recovering") || crate::text::contains_item(
            restartable,
            row.session_id.as_str(),
        )) {
            let slug = row.slug.clone();
            let ghost said = slug@;
            slugs.push(slug);
            assert(texts(slugs@) =~= before.push(said));
        }
        k += 1;
    }
    slugs
}

/// Whether these terminals of a lease are restarted.
pub open spec fn restarts_lease(
    lease_id: &str,
    cells: &Vec<CellState>,
    rows: &Vec<LeaseRow>,
    slugs: Result<Vec<String>, String>,
) -> bool {
let wanted = restart_slugs(
    rows@,
    restartable_keys(cells@, lease_id@, cells@.len() as int),
    rows@.len() as int,
);
match slugs {
    Ok(found) => wanted.len() > 0 && texts(found@) == wanted,
    Err(error) => wanted.len() == 0 && error@ == "No terminal row is bound to lease "@
        + lease_id@,
}
}

/// The terminals that a restart of a lease starts again, or why there are none.
pub fn restart_terminal_lease(
    lease_id: &str,
    cells: &Vec<CellState>,
    rows: &Vec<LeaseRow>,
) -> (slugs: Result<Vec<String>, String>)
    ensures
        restarts_lease(lease_id, cells, rows, slugs),
{
    let keys = restartable_processes(cells, lease_id);
    let slugs = terminal_slugs_for_lease(rows, &keys);
    assert(texts(slugs@).len() == slugs@.len());
    if slugs.len() == 0 {
        Err(text2("No terminal row is bound to lease ", lease_id))
    } else {
        Ok(slugs)
    }
}

/// The answer to a restart: the sessions that it started.
pub fn restarted_sessions(sessions: &Vec<String>) -> (answer: String)
    ensures
        answer@ == joined(texts(sessions@), ","@),
{
    join(sessions, ",")
}

/// A terminal that is closing, and one whose process has ended for good, is not
/// started again by a restart of its lease.
pub proof fn law_restart_leaves_ended_terminals_alone(row: LeaseRow, keys: Seq<Seq<char>>)
    ensures
        row.status@ == "closing"@ ==> !row_restarts(row, keys),
        row.status@ == "exited"@ && !keys.contains(row.session_id@) ==> !row_restarts(row, keys),
{
    reveal_strlit("exited");
    reveal_strlit("running");
    reveal_strlit("recovering");
    assert("exited"@.len() != "running"@.len());
    assert("exited"@.len() != "recovering"@.len());
}

/// A process can be restarted exactly if it starts or runs, or if it ended because its
/// executor was lost and may be restarted.
pub proof fn law_process_restarts_iff_it_was_cut_off(
    status: ProcessStatus,
    exit_code: Option<i32>,
    restartable: bool,
    lost: bool,
)
    ensures
        status.is_live() <==> status is Starting || status is Running,
        status.is_live() ==> status.is_restartable(),
        (ProcessStatus::Exited { exit_code, restartable, executor_lost: lost }).is_restartable()
            <==> restartable && lost,
        !ProcessStatus::Other.is_restartable(),
{
}

/// The process that is meant is the first with the key that is named; without one, the only
/// process of the generation, or the only process where no generation is named.
pub proof fn law_named_process_is_meant(
    processes: Seq<ProcessState>,
    key: Seq<char>,
    slug: Option<Seq<char>>,
    generation: Option<u64>,
    at: int,
)
    requires
        0 <= at < processes.len(),
    ensures
        processes[at].key@ == key && (forall|i: int|
            0 <= i < at ==> (#[trigger] processes[i]).key@ != key) ==> meant_process(
            processes,
            Some(key),
            generation,
        ) == Some(at),
        (slug matches Some(named) ==> forall|i: int|
            0 <= i < processes.len() ==> (#[trigger] processes[i]).key@ != named) && (generation
            is None || generation == Some(processes[at].generation)) && (forall|i: int|
            0 <= i < processes.len() && i != at ==> generation is Some && generation != Some(
                (#[trigger] processes[i]).generation,
            )) ==> meant_process(processes, slug, generation) == Some(at),
{
    if processes[at].key@ == key && (forall|i: int|
        0 <= i < at ==> (#[trigger] processes[i]).key@ != key) {
        lemma_key_found(processes, key, at, 0);
    }
    if (slug matches Some(named) ==> forall|i: int|
        0 <= i < processes.len() ==> (#[trigger] processes[i]).key@ != named) && (generation is None
        || generation == Some(processes[at].generation)) && (forall|i: int|
        0 <= i < processes.len() && i != at ==> generation is Some && generation != Some(
            (#[trigger] processes[i]).generation,
        )) {
        if let Some(named) = slug {
            lemma_key_found(processes, named, processes.len() as int, 0);
        }
        lemma_generation_found(processes, generation, at, 0);
        lemma_generation_found(processes, generation, processes.len() as int, at + 1);
    }
}

/// The search by key ends at the first process that has it.
proof fn lemma_key_found(processes: Seq<ProcessState>, key: Seq<char>, at: int, from: int)
    requires
        0 <= from <= at <= processes.len(),
        at < processes.len() ==> processes[at].key@ == key,
        forall|i: int| from <= i < at ==> (#[trigger] processes[i]).key@ != key,
    ensures
        at < processes.len() ==> process_with_key(processes, key, from) == Some(at),
        at == processes.len() ==> process_with_key(processes, key, from) is None,
    decreases at - from,
{
    if from < at {
        lemma_key_found(processes, key, at, from + 1);
    }
}

/// The search by generation ends at the first process that has it.
proof fn lemma_generation_found(
    processes: Seq<ProcessState>,
    generation: Option<u64>,
    at: int,
    from: int,
)
    requires
        0 <= from <= at <= processes.len(),
        at < processes.len() ==> generation is None || generation == Some(
            processes[at].generation,
        ),
        forall|i: int|
            from <= i < at ==> generation is Some && generation != Some(
                (#[trigger] processes[i]).generation,
            ),
    ensures
        at < processes.len() ==> process_of_generation(processes, generation, from) == Some(at),
        at == processes.len() ==> process_of_generation(processes, generation, from) is None,
    decreases at - from,
{
    if from < at {
        lemma_generation_found(processes, generation, at, from + 1);
    }
}

/// A cell binds a terminal exactly if it is held by the lease and life that are named and
/// the process that is meant is there; the binding names that process and that life.
pub proof fn law_cell_binds_its_own_terminals(
    cell: CellState,
    lease: LeaseState,
    lease_id: Seq<char>,
    life: Seq<char>,
    epoch: u64,
    slug: Option<Seq<char>>,
    generation: Option<u64>,
)
    ensures
        cell.lease is None ==> binding_in(cell, lease_id, life, epoch, slug, generation) is None,
        cell.lease == Some(lease) && (cell.lease_epoch != epoch || lease.lease_id@ != lease_id
            || lease.incarnation_id@ != life) ==> binding_in(
            cell,
            lease_id,
            life,
            epoch,
            slug,
            generation,
        ) is None,
        cell.lease == Some(lease) && cell.lease_epoch == epoch && lease.lease_id@ == lease_id
            && lease.incarnation_id@ == life ==> match meant_process(
            lease.processes@,
            slug,
            generation,
        ) {
            None => binding_in(cell, lease_id, life, epoch, slug, generation) is None,
            Some(at) => binding_in(cell, lease_id, life, epoch, slug, generation) matches Some(
                bound,
            ) && bound.process_key == lease.processes@[at].key@ && bound.process_generation
                == lease.processes@[at].generation && bound.fence.lease_id == lease_id
                && bound.fence.incarnation_id == life && bound.fence.lease_epoch == epoch
                && bound.fence.owner == lease.owner@,
        },
{
}

/// The binding is that of the first cell that binds the terminal.
pub proof fn law_first_binding_cell_counts(
    cells: Seq<CellState>,
    lease_id: Seq<char>,
    life: Seq<char>,
    epoch: u64,
    slug: Option<Seq<char>>,
    generation: Option<u64>,
    from: int,
    at: int,
)
    requires
        0 <= from <= at <= cells.len(),
        forall|i: int|
            from <= i < at ==> binding_in(
                #[trigger] cells[i],
                lease_id,
                life,
                epoch,
                slug,
                generation,
            ) is None,
        at < cells.len() ==> binding_in(cells[at], lease_id, life, epoch, slug, generation) is Some,
    ensures
        at < cells.len() ==> binding_from(cells, lease_id, life, epoch, slug, generation, from)
            == binding_in(cells[at], lease_id, life, epoch, slug, generation),
        at == cells.len() ==> binding_from(
            cells,
            lease_id,
            life,
            epoch,
            slug,
            generation,
            from,
        ) is None,
    decreases at - from,
{
    if from < at {
        assert(binding_in(cells[from], lease_id, life, epoch, slug, generation) is None);
        law_first_binding_cell_counts(
            cells,
            lease_id,
            life,
            epoch,
            slug,
            generation,
            from + 1,
            at,
        );
    }
}

/// A terminal that was recorded is bound again exactly if its row names a lease, a life and
/// an epoch, and a cell still holds them.
pub proof fn law_recorded_terminal_is_bound_again(
    session_id: Seq<char>,
    row: RecordedBinding,
    lease_id: String,
    life: String,
    epoch: u64,
    cells: Seq<CellState>,
)
    ensures
        ({
            let bound = recorded_binding(
                session_id,
                Ok::<Option<RecordedBinding>, String>(Some(row)),
                cells,
            );
            &&& row.lease_id is None || row.incarnation_id is None || row.lease_epoch is None
                ==> bound is Err
            &&& row.lease_id == Some(lease_id) && row.incarnation_id == Some(life)
                && row.lease_epoch == Some(epoch) ==> match binding_from(
                cells,
                lease_id@,
                life@,
                epoch,
                opt_text(row.slug),
                row.process_generation,
                0,
            ) {
                Some(found) => bound == Ok::<BindingModel, Seq<char>>(found),
                None => bound == Err::<BindingModel, Seq<char>>(
                    "Terminal executor lease is not connected: "@ + session_id,
                ),
            }
        }),
        recorded_binding(session_id, Ok::<Option<RecordedBinding>, String>(None), cells) == Err::<
            BindingModel,
            Seq<char>,
        >("Terminal session not running: "@ + session_id),
{
}

/// The processes of a lease that can be restarted are those of its cells that can, in order,
/// and no process of another lease.
pub proof fn law_restartable_processes_are_those_of_the_lease(
    cells: Seq<CellState>,
    processes: Seq<ProcessState>,
    lease: LeaseState,
    lease_id: Seq<char>,
    k: int,
    n: int,
)
    requires
        0 <= k < cells.len(),
        0 <= n < processes.len(),
    ensures
        cells[k].lease == Some(lease) && lease.lease_id@ == lease_id ==> restartable_keys(
            cells,
            lease_id,
            k + 1,
        ) == restartable_keys(cells, lease_id, k) + restartable_in(
            lease.processes@,
            lease.processes@.len() as int,
        ),
        (cells[k].lease matches Some(other) ==> other.lease_id@ != lease_id) ==> restartable_keys(
            cells,
            lease_id,
            k + 1,
        ) == restartable_keys(cells, lease_id, k),
        restartable_keys(cells, lease_id, 0).len() == 0,
        processes[n].status.is_restartable() ==> restartable_in(processes, n + 1) == restartable_in(
            processes,
            n,
        ).push(processes[n].key@),
        !processes[n].status.is_restartable() ==> restartable_in(processes, n + 1)
            == restartable_in(processes, n),
        restartable_in(processes, 0).len() == 0,
{
}

/// The terminals of a lease that are restarted are those whose rows run or recover, or whose
/// process can be restarted; none that is closing.
pub proof fn law_restarted_slugs_are_those_of_the_rows(
    rows: Seq<LeaseRow>,
    keys: Seq<Seq<char>>,
    k: int,
)
    requires
        0 <= k < rows.len(),
    ensures
        rows[k].status@ == "closing"@ ==> restart_slugs(rows, keys, k + 1) == restart_slugs(
            rows,
            keys,
            k,
        ),
        rows[k].status@ == "running"@ || rows[k].status@ == "recovering"@ ==> restart_slugs(
            rows,
            keys,
            k + 1,
        ) == restart_slugs(rows, keys, k).push(rows[k].slug@),
        rows[k].status@ != "closing"@ && keys.contains(rows[k].session_id@) ==> restart_slugs(
            rows,
            keys,
            k + 1,
        ) == restart_slugs(rows, keys, k).push(rows[k].slug@),
        rows[k].status@ != "running"@ && rows[k].status@ != "recovering"@ && !keys.contains(
            rows[k].session_id@,
        ) ==> restart_slugs(rows, keys, k + 1) == restart_slugs(rows, keys, k),
        restart_slugs(rows, keys, 0).len() == 0,
{
    reveal_strlit("closing");
    reveal_strlit("running");
    reveal_strlit("recovering");
    assert("closing"@[0] == 'c' && "running"@[0] == 'r' && "recovering"@[0] == 'r');
}

/// A restart of a lease restarts the terminals whose rows call for it, in their order, and
/// is refused exactly if there are none.
pub proof fn law_restart_is_of_all_that_call_for_it(
    lease_id: &str,
    cells: &Vec<CellState>,
    rows: &Vec<LeaseRow>,
    at: int,
    slugs: Result<Vec<String>, String>,
)
    requires
        restarts_lease(lease_id, cells, rows, slugs),
        0 <= at < rows@.len(),
    ensures
        ({
            let keys = restartable_keys(cells@, lease_id@, cells@.len() as int);
            let wanted = restart_slugs(rows@, keys, rows@.len() as int);
            &&& slugs is Ok <==> wanted.len() > 0
            &&& slugs matches Ok(found) ==> texts(found@) == wanted
            &&& rows@[at].status@ == "running"@ ==> slugs is Ok && wanted.contains(rows@[at].slug@)
        }),
{
    let keys = restartable_keys(cells@, lease_id@, cells@.len() as int);
    if rows@[at].status@ == "running"@ {
        lemma_running_row_restarts(rows@, keys, at, rows@.len() as int);
    }
}

/// A row that runs is among those that are restarted.
proof fn lemma_running_row_restarts(rows: Seq<LeaseRow>, keys: Seq<Seq<char>>, at: int, k: int)
    requires
        0 <= at < k <= rows.len(),
        rows[at].status@ == "running"@,
    ensures
        restart_slugs(rows, keys, k).contains(rows[at].slug@),
    decreases k,
{
    law_restarted_slugs_are_those_of_the_rows(rows, keys, k - 1);
    let before = restart_slugs(rows, keys, k - 1);
    let after = restart_slugs(rows, keys, k);
    if at == k - 1 {
        assert(after[before.len() as int] == rows[at].slug@);
    } else {
        lemma_running_row_restarts(rows, keys, at, k - 1);
        let j = choose|j: int| 0 <= j < before.len() && before[j] == rows[at].slug@;
        assert(after[j] == rows[at].slug@);
    }
}

} // verus!
