//! What each entry does: its action prepared from the configuration, the
//! classification of what happened when it was carried out, and the plan of a
//! whole run.
use vstd::prelude::*;

use crate::resolve::{resolve_path, resolved};
use crate::tags::{is_active, spec_is_active, views};
use crate::{Config, Entry, Error, FileType};

verus! {

/// The code reported for a command that ended without one.
pub const NO_EXIT_CODE: i32 = -1;

/// An action ready to be carried out.
#[derive(Clone, Debug, PartialEq, Eq)]
pub enum Action {
    /// Create a symbolic link at `target` that points to `source`.
    Link { source: String, target: String },
    /// Run `command` with `sh -c`.
    Exec { command: String },
}

/// What carrying out an `Exec` action gave.
#[derive(Clone, Debug, PartialEq, Eq)]
pub enum ExecReport {
    /// The shell could not be started; the system's message.
    SpawnFailed(String),
    /// Waiting for the shell failed; the system's message.
    WaitFailed(String),
    /// The shell ended, with its exit code if it had one.
    Exited(Option<i32>),
}

/// What may come of preparing the action `ft` of the entry keyed `src`: a
/// command is the key itself, untouched; a link resolves the key, then `dest`,
/// and fails only as resolution does.
pub open spec fn prepared(src: Seq<char>, ft: FileType, r: Result<Action, Error>) -> bool {
    match ft {
        FileType::Exec => r is Ok && r->Ok_0 is Exec && r->Ok_0->command@ == src,
        FileType::Link { dest } => {
            &&& r is Ok ==> r->Ok_0 is Link
            &&& r is Ok ==> resolved(src, Ok(r->Ok_0->source))
            &&& r is Ok ==> resolved(dest@, Ok(r->Ok_0->target))
            &&& r is Err ==> (resolved(src, Err(r->Err_0)) || resolved(dest@, Err(r->Err_0)))
        },
    }
}

/// Prepares the action `ft` of the entry keyed `src`.
pub fn prepare_action(src: &str, ft: &FileType) -> (r: Result<Action, Error>)
    ensures
        prepared(src@, *ft, r),
{
    match ft {
        FileType::Exec => Ok(Action::Exec { command: src.to_string() }),
        FileType::Link { dest } => {
            let source = resolve_path(src)?;
            let target = resolve_path(dest.as_str())?;
            Ok(Action::Link { source, target })
        },
    }
}

/// The outcome of a command that ended with `code`.
pub fn exit_outcome(code: Option<i32>) -> (r: Result<(), Error>)
    ensures
        r == exit_outcome_spec(code),
        code == Some(0i32) ==> r is Ok,
        code is Some && code->0 != 0 ==> r == Err::<(), Error>(Error::Run(code->0)),
        code is None ==> r == Err::<(), Error>(Error::Run(NO_EXIT_CODE)),
{
    match code {
        Some(0) => Ok(()),
        Some(c) => Err(Error::Run(c)),
        None => Err(Error::Run(NO_EXIT_CODE)),
    }
}

/// The outcome of carrying out an `Exec` action.
pub fn exec_outcome(report: ExecReport) -> (r: Result<(), Error>)
    ensures
        match report {
            ExecReport::SpawnFailed(m) => r == Err::<(), Error>(Error::CommandCreate(m)),
            ExecReport::WaitFailed(m) => r == Err::<(), Error>(Error::Link(m)),
            ExecReport::Exited(code) => r == exit_outcome_spec(code),
        },
{
    match report {
        ExecReport::SpawnFailed(m) => Err(Error::CommandCreate(m)),
        ExecReport::WaitFailed(m) => Err(Error::Link(m)),
        ExecReport::Exited(code) => exit_outcome(code),
    }
}

/// The outcome of a command that ended with `code`, as a value.
pub open spec fn exit_outcome_spec(code: Option<i32>) -> Result<(), Error> {
    match code {
        Some(c) => if c == 0 {
            Ok(())
        } else {
            Err(Error::Run(c))
        },
        None => Err(Error::Run(NO_EXIT_CODE)),
    }
}

/// The outcome of creating a link; on failure, the system's message.
pub fn link_outcome(created: Result<(), String>) -> (r: Result<(), Error>)
    ensures
        match created {
            Ok(_) => r is Ok,
            Err(m) => r == Err::<(), Error>(Error::Link(m)),
        },
{
    match created {
        Ok(_) => Ok(()),
        Err(m) => Err(Error::Link(m)),
    }
}

/// One planned step of a run: an active entry's key and its prepared action.
#[derive(Debug, PartialEq, Eq)]
pub struct Step {
    pub key: String,
    pub action: Result<Action, Error>,
}

/// The entries of `files` that are active under `active`, in order.
pub open spec fn selected(files: Seq<(String, Entry)>, active: Seq<Seq<char>>) -> Seq<
    (String, Entry),
>
    decreases files.len(),
{
    if files.len() == 0 {
        Seq::empty()
    } else {
        let rest = selected(files.drop_last(), active);
        if spec_is_active(views(files.last().1.tags@), active) {
            rest.push(files.last())
        } else {
            rest
        }
    }
}

/// Selection goes entry by entry: the entries selected from `earlier` followed
/// by `later` are those selected from each part, in order. So what a run
/// selects after the entries of `earlier`, and the step each gets, is the same
/// as in a run without them, whatever their actions gave.
pub proof fn lemma_selection_is_entrywise(
    earlier: Seq<(String, Entry)>,
    later: Seq<(String, Entry)>,
    active: Seq<Seq<char>>,
)
    ensures
        selected(earlier + later, active) == selected(earlier, active) + selected(later, active),
    decreases later.len(),
{
    if later.len() == 0 {
        assert(earlier + later =~= earlier);
        assert(selected(earlier, active) + selected(later, active) =~= selected(earlier, active));
    } else {
        lemma_selection_is_entrywise(earlier, later.drop_last(), active);
        assert((earlier + later).drop_last() =~= earlier + later.drop_last());
        assert((earlier + later).last() == later.last());
        let e = selected(earlier, active);
        let l = selected(later.drop_last(), active);
        if spec_is_active(views(later.last().1.tags@), active) {
            assert(e + l.push(later.last()) =~= (e + l).push(later.last()));
        }
    }
}

/// `steps` holds one step for each selected entry, in order, each prepared from
/// its own entry alone.
pub open spec fn plans(steps: Seq<Step>, chosen: Seq<(String, Entry)>) -> bool {
    &&& steps.len() == chosen.len()
    &&& forall|k: int|
        0 <= k < steps.len() ==> #[trigger] steps[k].key@ == chosen[k].0@ && prepared(
            chosen[k].0@,
            chosen[k].1.ft,
            steps[k].action,
        )
}

/// Plans a run of `config` under the active tag set `active`: every active
/// entry gets its step, whatever came of the steps before it.
pub fn plan(config: &Config, active: &Vec<String>) -> (r: Vec<Step>)
    ensures
        plans(r@, selected(config.files@, views(active@))),
{
    let files = &config.files;
    let mut r: Vec<Step> = Vec::new();
    let mut i: usize = 0;
    while i < files.len()
        invariant
            i <= files@.len(),
            plans(r@, selected(files@.subrange(0, i as int), views(active@))),
        decreases files@.len() - i,
    {
        let ghost before = selected(files@.subrange(0, i as int), views(active@));
        assert(files@.subrange(0, i + 1).drop_last() =~= files@.subrange(0, i as int));
        let (key, entry) = &files[i];
        if is_active(&entry.tags, active) {
            let action = prepare_action(key.as_str(), &entry.ft);
            r.push(Step { key: key.clone(), action });
            let ghost after = selected(files@.subrange(0, i + 1), views(active@));
            assert(after =~= before.push(files@[i as int]));
            assert forall|k: int| 0 <= k < r@.len() implies #[trigger] r@[k].key@ == after[k].0@
                && prepared(after[k].0@, after[k].1.ft, r@[k].action) by {
                if k < before.len() {
                    assert(after[k] == before[k]);
                }
            }
        }
        i += 1;
    }
    assert(files@.subrange(0, i as int) =~= files@);
    r
}

} // verus!
