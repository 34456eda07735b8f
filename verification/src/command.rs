//! The write-ahead command log: the records appended on schedule, cancel,
//! fire and settle, and the in-memory log and store used by single-node and
//! test deployments.

use vstd::prelude::*;

use crate::timer::{dup_opt_string, opt_str_view, TimerInstance, TimerModel};
use crate::TimestampMs;

verus! {

/// One command as it is written to the log.
#[derive(Debug)]
pub enum TimerCommand {
    Schedule { timer: TimerInstance },
    Cancel {
        timer_id: u128,
        tenant_id: String,
        cancelled_by: Option<String>,
        reason: Option<String>,
        at: TimestampMs,
    },
    Fire { timer_id: u128, tenant_id: String, at: TimestampMs },
    Settle { timer: TimerInstance },
}

/// The mathematical shape of a command.
pub enum CommandModel {
    Schedule(TimerModel),
    Cancel(u128, Seq<char>, Option<Seq<char>>, Option<Seq<char>>, TimestampMs),
    Fire(u128, Seq<char>, TimestampMs),
    Settle(TimerModel),
}

impl View for TimerCommand {
    type V = CommandModel;

    open spec fn view(&self) -> CommandModel {
        match self {
            TimerCommand::Schedule { timer } => CommandModel::Schedule(timer@),
            TimerCommand::Cancel { timer_id, tenant_id, cancelled_by, reason, at } =>
                CommandModel::Cancel(
                *timer_id,
                tenant_id@,
                opt_str_view(*cancelled_by),
                opt_str_view(*reason),
                *at,
            ),
            TimerCommand::Fire { timer_id, tenant_id, at } => CommandModel::Fire(
                *timer_id,
                tenant_id@,
                *at,
            ),
            TimerCommand::Settle { timer } => CommandModel::Settle(timer@),
        }
    }
}

impl CommandModel {
    /// The timer the command speaks of.
    pub open spec fn spec_timer_id(self) -> u128 {
        match self {
            CommandModel::Schedule(t) => t.id,
            CommandModel::Cancel(id, _, _, _, _) => id,
            CommandModel::Fire(id, _, _) => id,
            CommandModel::Settle(t) => t.id,
        }
    }

    /// The tenant the command belongs to.
    pub open spec fn spec_tenant_id(self) -> Seq<char> {
        match self {
            CommandModel::Schedule(t) => t.tenant_id,
            CommandModel::Cancel(_, tenant, _, _, _) => tenant,
            CommandModel::Fire(_, tenant, _) => tenant,
            CommandModel::Settle(t) => t.tenant_id,
        }
    }
}

impl TimerCommand {
    /// The timer the command speaks of.
    pub fn timer_id(&self) -> (r: u128)
        ensures
            r == self@.spec_timer_id(),
    {
        match self {
            TimerCommand::Schedule { timer } => timer.id,
            TimerCommand::Cancel { timer_id, .. } => *timer_id,
            TimerCommand::Fire { timer_id, .. } => *timer_id,
            TimerCommand::Settle { timer } => timer.id,
        }
    }

    /// The tenant the command belongs to.
    pub fn tenant_id(&self) -> (r: &str)
        ensures
            r@ == self@.spec_tenant_id(),
    {
        match self {
            TimerCommand::Schedule { timer } => timer.tenant_id.as_str(),
            TimerCommand::Cancel { tenant_id, .. } => tenant_id.as_str(),
            TimerCommand::Fire { tenant_id, .. } => tenant_id.as_str(),
            TimerCommand::Settle { timer } => timer.tenant_id.as_str(),
        }
    }

    /// A deep copy whose model is exactly this one's.
    pub fn duplicate(&self) -> (r: Self)
        ensures
            r@ == self@,
    {
        match self {
            TimerCommand::Schedule { timer } => TimerCommand::Schedule { timer: timer.snapshot() },
            TimerCommand::Cancel { timer_id, tenant_id, cancelled_by, reason, at } =>
                TimerCommand::Cancel {
                timer_id: *timer_id,
                tenant_id: tenant_id.clone(),
                cancelled_by: dup_opt_string(cancelled_by),
                reason: dup_opt_string(reason),
                at: *at,
            },
            TimerCommand::Fire { timer_id, tenant_id, at } => TimerCommand::Fire {
                timer_id: *timer_id,
                tenant_id: tenant_id.clone(),
                at: *at,
            },
            TimerCommand::Settle { timer } => TimerCommand::Settle { timer: timer.snapshot() },
        }
    }
}

/// The log name of each command kind.
pub fn command_name(record: &TimerCommand) -> (r: &'static str)
    ensures
        record@ is Schedule ==> r@ == "schedule"@,
        record@ is Cancel ==> r@ == "cancel"@,
        record@ is Fire ==> r@ == "fire"@,
        record@ is Settle ==> r@ == "settle"@,
{
    match record {
        TimerCommand::Schedule { .. } => "schedule",
        TimerCommand::Cancel { .. } => "cancel",
        TimerCommand::Fire { .. } => "fire",
        TimerCommand::Settle { .. } => "settle",
    }
}

/// One appended log entry.
#[derive(Debug)]
pub struct CommandEntry {
    /// One-based position in the log.
    pub sequence: i64,
    pub command: TimerCommand,
    pub created_at: TimestampMs,
}

/// The mathematical shape of a log entry.
pub struct CommandEntryModel {
    pub sequence: int,
    pub command: CommandModel,
    pub created_at: TimestampMs,
}

impl View for CommandEntry {
    type V = CommandEntryModel;

    open spec fn view(&self) -> CommandEntryModel {
        CommandEntryModel {
            sequence: self.sequence as int,
            command: self.command@,
            created_at: self.created_at,
        }
    }
}

/// The models of a list of entries.
pub open spec fn entries_view(s: Seq<CommandEntry>) -> Seq<CommandEntryModel> {
    Seq::new(s.len(), |i: int| s[i]@)
}

/// An append-only in-memory command log: entries in call order with
/// one-based, gap-free sequence numbers.
pub struct InMemoryCommandLog {
    entries: Vec<CommandEntry>,
}

impl InMemoryCommandLog {
    /// The entries appended so far, in order.
    pub closed spec fn spec_entries(self) -> Seq<CommandEntryModel> {
        entries_view(self.entries@)
    }

    /// Sequence numbers count the entries from one.
    pub open spec fn wf(self) -> bool {
        &&& self.spec_entries().len() < 0x4000_0000_0000_0000
        &&& forall|i: int|
            0 <= i < self.spec_entries().len() ==> (#[trigger] self.spec_entries()[i]).sequence == i
                + 1
    }

    /// An empty log.
    pub fn new() -> (r: Self)
        ensures
            r.wf(),
            r.spec_entries() =~= Seq::<CommandEntryModel>::empty(),
    {
        InMemoryCommandLog { entries: Vec::new() }
    }

    /// Appends a command at the next sequence number and returns the entry
    /// as recorded.
    pub fn append(&mut self, command: &TimerCommand, now: TimestampMs) -> (r: CommandEntry)
        requires
            old(self).wf(),
            old(self).spec_entries().len() + 1 < 0x4000_0000_0000_0000,
        ensures
            final(self).wf(),
            r@.command == command@,
            r@.created_at == now,
            r@.sequence == old(self).spec_entries().len() + 1,
            final(self).spec_entries() == old(self).spec_entries().push(r@),
    {
        let sequence: i64 = (self.entries.len() as i64) + 1;
        let entry = CommandEntry { sequence, command: command.duplicate(), created_at: now };
        let copy = CommandEntry { sequence, command: command.duplicate(), created_at: now };
        self.entries.push(entry);
        proof {
            assert(self.spec_entries() =~= old(self).spec_entries().push(copy@));
            assert forall|i: int|
                0 <= i < self.spec_entries().len() implies (#[trigger] self.spec_entries()[i]).sequence
                == i + 1 by {
                if i < self.spec_entries().len() - 1 {
                    assert(old(self).spec_entries()[i].sequence == i + 1);
                }
            }
        }
        copy
    }

    /// The number of entries appended so far.
    pub fn len(&self) -> (r: usize)
        ensures
            r == self.spec_entries().len(),
    {
        self.entries.len()
    }

    /// Every entry appended so far, in order.
    pub fn load_all(&self) -> (r: Vec<CommandEntry>)
        ensures
            entries_view(r@) == self.spec_entries(),
    {
        let mut out: Vec<CommandEntry> = Vec::new();
        let n = self.entries.len();
        let mut i: usize = 0;
        while i < n
            invariant
                n == self.entries@.len(),
                0 <= i <= n,
                out@.len() == i,
                forall|j: int| 0 <= j < i ==> (#[trigger] out@[j])@ == self.entries@[j]@,
            decreases n - i,
        {
            let e = &self.entries[i];
            let copy = CommandEntry {
                sequence: e.sequence,
                command: e.command.duplicate(),
                created_at: e.created_at,
            };
            out.push(copy);
            i += 1;
        }
        proof {
            assert(entries_view(out@) =~= self.spec_entries());
        }
        out
    }
}

/// The store used when no durable backing is configured: it accepts every
/// write and restores nothing, exactly as an ephemeral deployment expects.
pub struct InMemoryTimerStore {
}

impl InMemoryTimerStore {
    /// An ephemeral store.
    pub fn new() -> (r: Self) {
        InMemoryTimerStore {  }
    }

    /// An ephemeral store never has rows to restore.
    pub fn load_active(&self) -> (r: Vec<TimerInstance>)
        ensures
            r@.len() == 0,
    {
        Vec::new()
    }

    /// Writes are accepted and dropped.
    pub fn upsert(&self, timer: &TimerInstance) -> (r: bool)
        ensures
            r,
    {
        let _ = timer;
        true
    }
}

} // verus!
