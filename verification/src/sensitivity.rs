//! `--sensitivity` and `--sensitivity-stages`: what is written to the mouse, in
//! which order, and what is said of the result.

use vstd::prelude::*;
use vstd::string::*;

use crate::protocol;
use crate::protocol::{
    format_dpi, parse_dpi_reply, query_dpi, set_dpi, set_dpi_stages, DpiStages, Question,
    DEFAULT_DPI_ACTIVE_STAGE, DEFAULT_DPI_STAGES, LIVESTORE, REPORT_LEN, VARSTORE,
};
use crate::text;
use crate::text::{decimal_text, join};

verus! {

/// What the mouse is set to.
#[derive(Debug, Clone, Copy, PartialEq, Eq, Structural)]
pub enum Goal {
    /// One DPI value and nothing to cycle to: the button is inert.
    Pin(u16),
    /// The default stage table, which the button cycles.
    Cycle,
}

impl Goal {
    /// The stage table to install.
    pub open spec fn stages(self) -> Seq<u16> {
        match self {
            Goal::Pin(dpi) => seq![dpi],
            Goal::Cycle => DEFAULT_DPI_STAGES@,
        }
    }

    /// The active stage of that table, counted from 1.
    pub open spec fn active(self) -> u8 {
        match self {
            Goal::Pin(_) => 1,
            Goal::Cycle => DEFAULT_DPI_ACTIVE_STAGE,
        }
    }

    /// The DPI to run at: that of the active stage.
    pub open spec fn dpi(self) -> u16 {
        self.stages()[self.active() - 1]
    }

    /// The requests to make, in order: the stage table to the live and then to
    /// the stored slot, the DPI to both likewise, and the readback.
    pub open spec fn requests(self) -> Seq<Seq<u8>> {
        seq![
            protocol::stages_write(LIVESTORE, self.active(), self.stages()),
            protocol::stages_write(VARSTORE, self.active(), self.stages()),
            protocol::dpi_write(LIVESTORE, self.dpi()),
            protocol::dpi_write(VARSTORE, self.dpi()),
            protocol::dpi_query(),
        ]
    }

    /// What to say once the readback told the DPI that the sensor runs at.
    pub open spec fn report(self, applied: (u16, u16)) -> Seq<Seq<char>> {
        let dpi = "✓ DPI: "@ + protocol::dpi_text(applied);
        match self {
            Goal::Pin(wanted) => {
                let line = dpi
                    + " (stages off — Cycle Up Sensitivity Stages button disabled)"@;
                if applied == (wanted, wanted) {
                    seq![line]
                } else {
                    seq![
                        line,
                        "⚠ requested "@ + text::decimal(wanted as nat)
                            + ", firmware adjusted it"@,
                    ]
                }
            },
            Goal::Cycle => seq![
                dpi + " (stages on — Cycle Up Sensitivity Stages button cycles "@ + text::joined(
                    DEFAULT_DPI_STAGES@.map_values(|stage: u16| text::decimal(stage as nat)),
                    "/"@,
                ) + ")"@,
            ],
        }
    }
}

/// Where a sensitivity change stands.
#[derive(Debug, Clone, Copy, PartialEq, Eq, Structural)]
pub enum Change {
    /// The current DPI is being read, to be frozen.
    Reading,
    /// Request number `step` of the goal is being made.
    Writing { goal: Goal, step: usize },
}

/// What follows from a reply.
pub enum Progress {
    /// Say the lines, then go on with the change.
    Ask { change: Change, lines: Vec<String> },
    /// Say the lines: the change is made.
    Done { lines: Vec<String> },
    /// The exchange failed, and with it the change.
    Failed,
}

/// What to say before freezing the DPI that was read.
pub open spec fn freeze_warning(dpi: (u16, u16)) -> Seq<Seq<char>> {
    if dpi.0 == dpi.1 {
        Seq::empty()
    } else {
        seq![
            "⚠ axes differ ("@ + text::decimal(dpi.0 as nat) + " / "@ + text::decimal(
                dpi.1 as nat,
            ) + ") — freezing both at "@ + text::decimal(dpi.0 as nat),
        ]
    }
}

/// The free slider: pin the sensitivity to one DPI value and collapse the
/// stage table to it, so the Cycle Up Sensitivity Stages button is inert:
/// nothing on the mouse can change the value anymore.
pub fn run_sensitivity(dpi: u16) -> (r: Change)
    ensures
        r == (Change::Writing { goal: Goal::Pin(dpi), step: 0 }),
{
    Change::Writing { goal: Goal::Pin(dpi), step: 0 }
}

/// The Synapse-style "Sensitivity Stages" toggle. On: install the default
/// stage table and give the Cycle Up Sensitivity Stages button its stages
/// back. Off: freeze the current DPI as the only stage, disabling the button.
pub fn run_sensitivity_stages(enabled: bool) -> (r: Change)
    ensures
        r == (if enabled {
            Change::Writing { goal: Goal::Cycle, step: 0 }
        } else {
            Change::Reading
        }),
{
    if enabled {
        Change::Writing { goal: Goal::Cycle, step: 0 }
    } else {
        Change::Reading
    }
}

impl Change {
    pub open spec fn wf(self) -> bool {
        self matches Change::Writing { step, .. } ==> step < 5
    }

    /// The request that is pending.
    pub open spec fn request(self) -> Seq<u8> {
        match self {
            Change::Reading => protocol::dpi_query(),
            Change::Writing { goal, step } => goal.requests()[step as int],
        }
    }

    /// The words under which a failure of the pending request is reported.
    pub open spec fn request_context(self) -> Seq<char> {
        match self {
            Change::Reading => "DPI query failed"@,
            Change::Writing { step, .. } => if step == 0 {
                "DPI stage table write failed ("@ + "live"@ + " slot)"@
            } else if step == 1 {
                "DPI stage table write failed ("@ + "stored"@ + " slot)"@
            } else if step == 2 {
                "DPI set failed ("@ + "live"@ + " slot)"@
            } else if step == 3 {
                "DPI set failed ("@ + "stored"@ + " slot)"@
            } else {
                "DPI query failed"@
            },
        }
    }

    /// The question that is pending.
    pub fn question(&self) -> (r: Question)
        requires
            self.wf(),
        ensures
            r.asks(self.request(), self.request_context()),
    {
        match *self {
            Change::Reading => query_dpi(),
            Change::Writing { goal, step } => {
                let slot = if step == 0 || step == 2 {
                    LIVESTORE
                } else {
                    VARSTORE
                };
                if step < 2 {
                    match goal {
                        Goal::Pin(dpi) => {
                            let stages: [u16; 1] = [dpi];
                            proof {
                                assert(stages@ =~= goal.stages());
                            }
                            set_dpi_stages(slot, 1, &stages)
                        },
                        Goal::Cycle => {
                            let stages: [u16; 5] = DEFAULT_DPI_STAGES;
                            set_dpi_stages(slot, DEFAULT_DPI_ACTIVE_STAGE, &stages)
                        },
                    }
                } else if step < 4 {
                    set_dpi(
                        slot,
                        match goal {
                            Goal::Pin(dpi) => dpi,
                            Goal::Cycle => DEFAULT_DPI_STAGES[DEFAULT_DPI_ACTIVE_STAGE as usize - 1],
                        },
                    )
                } else {
                    query_dpi()
                }
            },
        }
    }

    /// The words put before those of a failed read: what the read was for.
    pub fn purpose(&self) -> (r: Option<&'static str>)
        ensures
            match *self {
                Change::Reading => r is Some && r->0@ == "DPI query failed"@,
                Change::Writing { step, .. } => if step == 4 {
                    r is Some && r->0@ == "DPI readback failed"@
                } else {
                    r is None
                },
            },
    {
        match *self {
            Change::Reading => Some("DPI query failed"),
            Change::Writing { step, .. } => if step == 4 {
                Some("DPI readback failed")
            } else {
                None
            },
        }
    }

    /// The reply to the pending question came, or the exchange failed.
    pub fn on_reply(self, reply: Option<[u8; REPORT_LEN]>) -> (r: Progress)
        requires
            self.wf(),
        ensures
            self.leads_to(reply, r),
    {
        let bytes = match reply {
            None => {
                return Progress::Failed;
            },
            Some(bytes) => bytes,
        };
        match self {
            Change::Reading => {
                let (x, y) = parse_dpi_reply(&bytes);
                let mut lines: Vec<String> = Vec::new();
                if x != y {
                    let mut line = "⚠ axes differ (".to_owned();
                    line.append(decimal_text(x as u64).as_str());
                    line.append(" / ");
                    line.append(decimal_text(y as u64).as_str());
                    line.append(") — freezing both at ");
                    line.append(decimal_text(x as u64).as_str());
                    lines.push(line);
                }
                proof {
                    assert(text::text_of(lines@) =~= freeze_warning((x, y)));
                }
                Progress::Ask { change: run_sensitivity(x), lines }
            },
            Change::Writing { goal, step } => {
                if step < 4 {
                    let lines: Vec<String> = Vec::new();
                    proof {
                        assert(text::text_of(lines@) =~= Seq::empty());
                    }
                    Progress::Ask { change: Change::Writing { goal, step: step + 1 }, lines }
                } else {
                    Progress::Done { lines: report_lines(goal, parse_dpi_reply(&bytes)) }
                }
            },
        }
    }

    /// What a reply leads to: the next request while there is one, and the
    /// report of what was read back in the end.
    pub open spec fn leads_to(self, reply: Option<[u8; REPORT_LEN]>, progress: Progress) -> bool {
        match (self, reply) {
            (_, None) => progress is Failed,
            (Change::Reading, Some(bytes)) => {
                &&& progress matches Progress::Ask { change, lines }
                &&& change == (Change::Writing {
                    goal: Goal::Pin(protocol::dpi_of(bytes@).0),
                    step: 0,
                })
                &&& text::text_of(lines@) == freeze_warning(protocol::dpi_of(bytes@))
            },
            (Change::Writing { goal, step }, Some(bytes)) => if step < 4 {
                &&& progress matches Progress::Ask { change, lines }
                &&& change == (Change::Writing { goal, step: (step + 1) as usize })
                &&& text::text_of(lines@) == Seq::<Seq<char>>::empty()
            } else {
                &&& progress matches Progress::Done { lines }
                &&& text::text_of(lines@) == goal.report(protocol::dpi_of(bytes@))
            },
        }
    }
}

/// What to say once the readback told the DPI that the sensor runs at.
pub fn report_lines(goal: Goal, applied: (u16, u16)) -> (r: Vec<String>)
    ensures
        text::text_of(r@) == goal.report(applied),
{
    let mut line = "✓ DPI: ".to_owned();
    line.append(format_dpi(applied).as_str());
    let mut lines: Vec<String> = Vec::new();
    match goal {
        Goal::Pin(wanted) => {
            line.append(" (stages off — Cycle Up Sensitivity Stages button disabled)");
            lines.push(line);
            if applied.0 != wanted || applied.1 != wanted {
                let mut warning = "⚠ requested ".to_owned();
                warning.append(decimal_text(wanted as u64).as_str());
                warning.append(", firmware adjusted it");
                lines.push(warning);
            }
        },
        Goal::Cycle => {
            let stages: [u16; 5] = DEFAULT_DPI_STAGES;
            let mut shown: Vec<String> = Vec::new();
            let mut i: usize = 0;
            while i < 5
                invariant
                    i <= 5,
                    stages == DEFAULT_DPI_STAGES,
                    shown@.len() == i,
                    forall|k: int|
                        0 <= k < i ==> #[trigger] shown@[k]@ == text::decimal(
                            DEFAULT_DPI_STAGES@[k] as nat,
                        ),
                decreases 5 - i,
            {
                shown.push(decimal_text(stages[i] as u64));
                i = i + 1;
            }
            proof {
                assert(text::text_of(shown@) =~= DEFAULT_DPI_STAGES@.map_values(
                    |stage: u16| text::decimal(stage as nat),
                ));
            }
            line.append(" (stages on — Cycle Up Sensitivity Stages button cycles ");
            line.append(join(&shown, "/").as_str());
            line.append(")");
            lines.push(line);
        },
    }
    proof {
        assert(text::text_of(lines@) =~= goal.report(applied));
    }
    lines
}

// ---------- Laws ----------

/// What a change has come to.
pub enum Outcome {
    Pending(Change),
    /// The goal was written, and `applied` read back.
    Made { goal: Goal, applied: (u16, u16) },
    Failed,
}

impl Outcome {
    /// The outcome that a progress stands for; `applied` is what a final reply
    /// told.
    pub open spec fn after(change: Change, reply: Option<[u8; REPORT_LEN]>) -> Outcome {
        match (change, reply) {
            (_, None) => Outcome::Failed,
            (Change::Reading, Some(bytes)) => Outcome::Pending(
                Change::Writing { goal: Goal::Pin(protocol::dpi_of(bytes@).0), step: 0 },
            ),
            (Change::Writing { goal, step }, Some(bytes)) => if step < 4 {
                Outcome::Pending(Change::Writing { goal, step: (step + 1) as usize })
            } else {
                Outcome::Made { goal, applied: protocol::dpi_of(bytes@) }
            },
        }
    }
}

/// What `change` comes to over a series of replies.
pub open spec fn change_run(change: Change, replies: Seq<Option<[u8; REPORT_LEN]>>) -> Outcome
    decreases replies.len(),
{
    if replies.len() == 0 {
        Outcome::Pending(change)
    } else {
        match change_run(change, replies.drop_last()) {
            Outcome::Pending(next) => Outcome::after(next, replies.last()),
            settled => settled,
        }
    }
}

/// Every progress of a change is the one that the outcome of the reply tells,
/// and what is said at the end is said of the DPI that was read back.
pub proof fn law_progress_follows_the_outcome(
    change: Change,
    reply: Option<[u8; REPORT_LEN]>,
    progress: Progress,
)
    requires
        change.wf(),
        change.leads_to(reply, progress),
    ensures
        match Outcome::after(change, reply) {
            Outcome::Pending(next) => progress matches Progress::Ask { change, .. } && change
                == next && next.wf(),
            Outcome::Made { goal, applied } => progress matches Progress::Done { lines }
                && text::text_of(lines@) == goal.report(applied),
            Outcome::Failed => progress is Failed,
        },
{
}

/// A change writes its stage table and its DPI to the live slot and to the
/// stored slot, in that order, and then reads the DPI back. It is made exactly
/// when all five exchanges were answered, what it reports as applied is what the
/// readback told, and the first failed exchange ends it.
pub proof fn law_change_writes_both_slots_and_reads_back(
    goal: Goal,
    replies: Seq<Option<[u8; REPORT_LEN]>>,
)
    requires
        replies.len() <= 5,
    ensures
        change_run(Change::Writing { goal, step: 0 }, replies) == (if exists|i: int|
            0 <= i < replies.len() && #[trigger] replies[i] is None {
            Outcome::Failed
        } else if replies.len() < 5 {
            Outcome::Pending(Change::Writing { goal, step: replies.len() as usize })
        } else {
            Outcome::Made { goal, applied: protocol::dpi_of(replies[4]->0@) }
        }),
        change_run(Change::Writing { goal, step: 0 }, replies) matches Outcome::Pending(change)
            ==> change.request() == goal.requests()[replies.len() as int],
    decreases replies.len(),
{
    if replies.len() > 0 {
        let before = replies.drop_last();
        law_change_writes_both_slots_and_reads_back(goal, before);
        if exists|i: int| 0 <= i < before.len() && #[trigger] before[i] is None {
            let i = choose|i: int| 0 <= i < before.len() && #[trigger] before[i] is None;
            assert(replies[i] is None);
        } else if replies.last() is None {
            assert(replies[replies.len() - 1] is None);
        } else {
            assert forall|i: int| 0 <= i < replies.len() implies #[trigger] replies[i] is Some by {
                if i < before.len() {
                    assert(before[i] is Some);
                }
            }
        }
    }
}

/// Freezing pins the value that the sensor runs at on its X axis.
pub proof fn law_freezing_pins_the_current_dpi(reply: [u8; REPORT_LEN])
    ensures
        change_run(Change::Reading, seq![Some(reply)]) == Outcome::Pending(
            Change::Writing { goal: Goal::Pin(protocol::dpi_of(reply@).0), step: 0 },
        ),
{
    let replies = seq![Some(reply)];
    assert(replies.drop_last() =~= Seq::empty());
    assert(change_run(Change::Reading, replies.drop_last()) == Outcome::Pending(Change::Reading));
}

/// A mouse that holds the stage table of a pinned value shows the lock: the
/// button has nothing to cycle to.
pub proof fn law_pinned_table_shows_the_lock(reply: Seq<u8>, store: u8, dpi: u16, shown: DpiStages)
    requires
        reply.len() == REPORT_LEN,
        reply.subrange(8, 18) == protocol::stages_args(
            store,
            Goal::Pin(dpi).active(),
            Goal::Pin(dpi).stages(),
        ),
        shown.active == reply[9],
        shown.stages@ == protocol::stages_of(reply),
    ensures
        shown.stages@ == seq![(dpi, dpi)],
        shown.text() == "🔒 off — locked at "@ + text::decimal(dpi as nat),
{
    protocol::law_stage_table_reads_back(reply, store, 1, seq![dpi]);
    assert(shown.stages@ =~= seq![(dpi, dpi)]);
}

/// The request that a change makes at `step` towards its goal.
pub open spec fn request_at(goal: Goal, step: usize) -> Seq<u8> {
    (Change::Writing { goal, step }).request()
}

/// A pinned value is written as it is, whatever it is: as the only stage of the
/// table, and as the DPI to run at, each to the live and then to the stored slot.
/// The DPI of the live slot is read at the end.
pub proof fn law_pinned_value_is_written(dpi: u16)
    ensures
        forall|step: usize|
            step < 2 ==> {
                let table = #[trigger] request_at(Goal::Pin(dpi), step);
                &&& table[1] == 0x1F && table[6] == 0x04 && table[7] == 0x06
                &&& table[8] == step && table[9] == 1 && table[10] == 1
                &&& protocol::holds_stage(table, 0, dpi)
            },
        forall|step: usize|
            2 <= step < 4 ==> {
                let write = #[trigger] request_at(Goal::Pin(dpi), step);
                &&& write[1] == 0x1F && write[6] == 0x04 && write[7] == 0x05
                &&& write[8] == step - 2
                &&& protocol::holds_at(write, 9, dpi)
                &&& protocol::holds_at(write, 11, dpi)
            },
        protocol::asks_with(request_at(Goal::Pin(dpi), 4), 0x1F, 0x04, 0x85, 7, seq![0u8]),
{
    let stages = seq![dpi];
    assert(stages[0] == dpi);
    protocol::law_stages_write_carries_its_table(0, 1, stages);
    protocol::law_stages_write_carries_its_table(1, 1, stages);
    protocol::law_dpi_write_carries_its_value(0, dpi);
    protocol::law_dpi_write_carries_its_value(1, dpi);
    protocol::law_questions_use_their_commands(0);
    let requests = Goal::Pin(dpi).requests();
    assert(requests[0] == protocol::stages_write(0, 1, stages));
    assert(requests[1] == protocol::stages_write(1, 1, stages));
    assert(requests[2] == protocol::dpi_write(0, dpi));
    assert(requests[3] == protocol::dpi_write(1, dpi));
    assert forall|step: usize| step < 2 implies {
        let table = #[trigger] request_at(Goal::Pin(dpi), step);
        &&& table[1] == 0x1F && table[6] == 0x04 && table[7] == 0x06
        &&& table[8] == step && table[9] == 1 && table[10] == 1
        &&& protocol::holds_stage(table, 0, dpi)
    } by {
        assert(protocol::holds_stage(protocol::stages_write(0, 1, stages), 0, stages[0]));
        assert(protocol::holds_stage(protocol::stages_write(1, 1, stages), 0, stages[0]));
        assert(step == 0 || step == 1);
    }
    assert forall|step: usize| 2 <= step < 4 implies {
        let write = #[trigger] request_at(Goal::Pin(dpi), step);
        &&& write[1] == 0x1F && write[6] == 0x04 && write[7] == 0x05
        &&& write[8] == step - 2
        &&& protocol::holds_at(write, 9, dpi)
        &&& protocol::holds_at(write, 11, dpi)
    } by {
        assert(step == 2 || step == 3);
    }
}

/// Switching the stages on writes the five default stages with the third active,
/// and its value as the DPI to run at, each to the live and then to the stored
/// slot. The DPI of the live slot is read at the end.
pub proof fn law_default_stages_are_written()
    ensures
        forall|step: usize|
            step < 2 ==> is_default_table(#[trigger] request_at(Goal::Cycle, step), step as u8),
        forall|step: usize|
            2 <= step < 4 ==> is_default_dpi(
                #[trigger] request_at(Goal::Cycle, step),
                (step - 2) as u8,
            ),
        protocol::asks_with(request_at(Goal::Cycle, 4), 0x1F, 0x04, 0x85, 7, seq![0u8]),
{
    lemma_default_table(0);
    lemma_default_table(1);
    lemma_default_dpi(0);
    lemma_default_dpi(1);
    lemma_readback();
    assert forall|step: usize| step < 2 implies is_default_table(
        #[trigger] request_at(Goal::Cycle, step),
        step as u8,
    ) by {
        assert(step == 0 || step == 1);
    }
    assert forall|step: usize| 2 <= step < 4 implies is_default_dpi(
        #[trigger] request_at(Goal::Cycle, step),
        (step - 2) as u8,
    ) by {
        assert(step == 2 || step == 3);
    }
}

/// The write of the default stages to a slot.
pub open spec fn is_default_table(table: Seq<u8>, store: u8) -> bool {
    &&& table[1] == 0x1F && table[6] == 0x04 && table[7] == 0x06
    &&& table[8] == store && table[9] == 3 && table[10] == 5
    &&& protocol::holds_stage(table, 0, 400)
    &&& protocol::holds_stage(table, 1, 800)
    &&& protocol::holds_stage(table, 2, 1600)
    &&& protocol::holds_stage(table, 3, 3200)
    &&& protocol::holds_stage(table, 4, 6400)
}

/// The write of the DPI of the third default stage to a slot.
pub open spec fn is_default_dpi(write: Seq<u8>, store: u8) -> bool {
    &&& write[1] == 0x1F && write[6] == 0x04 && write[7] == 0x05
    &&& write[8] == store
    &&& protocol::holds_at(write, 9, 1600)
    &&& protocol::holds_at(write, 11, 1600)
}

proof fn lemma_default_table(store: u8)
    requires
        store < 2,
    ensures
        is_default_table(request_at(Goal::Cycle, store as usize), store),
{
    let stages = DEFAULT_DPI_STAGES@;
    lemma_table_requests(Goal::Cycle);
    protocol::law_stages_write_carries_its_table(store, 3, stages);
    lemma_is_default_table(protocol::stages_write(store, 3, stages), store, stages);
}

proof fn lemma_table_requests(goal: Goal)
    ensures
        request_at(goal, 0) == protocol::stages_write(0, goal.active(), goal.stages()),
        request_at(goal, 1) == protocol::stages_write(1, goal.active(), goal.stages()),
{
}

proof fn lemma_is_default_table(table: Seq<u8>, store: u8, stages: Seq<u16>)
    requires
        stages == DEFAULT_DPI_STAGES@,
        protocol::heads(table, 0x1F, 0x04, 0x06, 38),
        table[8] == store && table[9] == 3 && table[10] == stages.len(),
        forall|k: int|
            0 <= k < stages.len() ==> #[trigger] protocol::holds_stage(table, k, stages[k]),
    ensures
        is_default_table(table, store),
{
    assert(protocol::holds_stage(table, 0, stages[0]));
    assert(protocol::holds_stage(table, 1, stages[1]));
    assert(protocol::holds_stage(table, 2, stages[2]));
    assert(protocol::holds_stage(table, 3, stages[3]));
    assert(protocol::holds_stage(table, 4, stages[4]));
}

proof fn lemma_default_dpi(store: u8)
    requires
        store < 2,
    ensures
        is_default_dpi(request_at(Goal::Cycle, (store + 2) as usize), store),
{
    protocol::law_dpi_write_carries_its_value(store, 1600);
    assert(request_at(Goal::Cycle, (store + 2) as usize) == protocol::dpi_write(store, 1600));
}

proof fn lemma_readback()
    ensures
        protocol::asks_with(request_at(Goal::Cycle, 4), 0x1F, 0x04, 0x85, 7, seq![0u8]),
{
    protocol::law_questions_use_their_commands(0);
}

/// For every goal the DPI that is written, to either slot and on either axis, is
/// the value of the stage that the installed table has active.
pub proof fn law_written_dpi_is_the_active_stage(goal: Goal)
    ensures
        ({
            let table = request_at(goal, 0);
            let active = table[9] as int;
            let value = table[5 + 7 * active] * 256 + table[6 + 7 * active];
            &&& 1 <= active <= table[10]
            &&& table[11 + 7 * (active - 1)] == active
            &&& value == request_at(goal, 2)[9] * 256 + request_at(goal, 2)[10]
            &&& value == request_at(goal, 2)[11] * 256 + request_at(goal, 2)[12]
            &&& value == request_at(goal, 3)[9] * 256 + request_at(goal, 3)[10]
            &&& value == request_at(goal, 3)[11] * 256 + request_at(goal, 3)[12]
            &&& request_at(goal, 1).subrange(9, 88) == table.subrange(9, 88)
        }),
{
    match goal {
        Goal::Pin(dpi) => {
            law_pinned_value_is_written(dpi);
        },
        Goal::Cycle => {
            law_default_stages_are_written();
        },
    }
    let table = request_at(goal, 0);
    assert(request_at(goal, 1).subrange(9, 88) =~= table.subrange(9, 88));
    let write = request_at(goal, 2);
    let stored = request_at(goal, 3);
    assert(table[9] == 1 || table[9] == 3);
}

/// Freezing reads the live DPI and pins what it reads on the X axis, bytes 9 and 10
/// of the reply; a miss ends it.
pub proof fn law_freezing_pins_what_it_reads(reply: [u8; REPORT_LEN], progress: Progress)
    requires
        Change::Reading.leads_to(Some(reply), progress),
    ensures
        protocol::asks_with(Change::Reading.request(), 0x1F, 0x04, 0x85, 7, seq![0u8]),
        match progress {
            Progress::Ask { change: Change::Writing { goal: Goal::Pin(dpi), step }, lines } => {
                &&& step == 0
                &&& protocol::holds_at(reply@, 9, dpi)
                &&& reply@[9] == reply@[11] && reply@[10] == reply@[12] ==> lines@.len() == 0
                &&& !(reply@[9] == reply@[11] && reply@[10] == reply@[12]) ==> lines@.len() == 1
                    && lines@[0]@ == "⚠ axes differ ("@ + text::decimal(dpi as nat) + " / "@
                    + text::decimal((reply@[11] * 256 + reply@[12]) as nat)
                    + ") — freezing both at "@ + text::decimal(dpi as nat)
            },
            _ => false,
        },
{
    protocol::law_questions_use_their_commands(0);
    let lines = progress->Ask_lines;
    assert(text::text_of(lines@).len() == lines@.len());
    if lines@.len() > 0 {
        assert(text::text_of(lines@)[0] == lines@[0]@);
    }
}

/// What is said at the end is said of the DPI that was read back, and a value that
/// the firmware adjusted is pointed out.
pub proof fn law_report_tells_what_was_read_back(goal: Goal, applied: (u16, u16))
    ensures
        ({
            let shown = "✓ DPI: "@ + protocol::dpi_text(applied);
            match goal {
                Goal::Pin(wanted) => {
                    &&& goal.report(applied)[0] == shown
                        + " (stages off — Cycle Up Sensitivity Stages button disabled)"@
                    &&& applied.0 == wanted && applied.1 == wanted ==> goal.report(applied).len()
                        == 1
                    &&& applied.0 != wanted || applied.1 != wanted ==> goal.report(applied).len()
                        == 2 && goal.report(applied)[1] == "⚠ requested "@ + text::decimal(
                        wanted as nat,
                    ) + ", firmware adjusted it"@
                },
                Goal::Cycle => {
                    &&& goal.report(applied).len() == 1
                    &&& goal.report(applied)[0] == shown
                        + " (stages on — Cycle Up Sensitivity Stages button cycles "@
                        + text::decimal(400) + "/"@ + text::decimal(800) + "/"@ + text::decimal(
                        1600,
                    ) + "/"@ + text::decimal(3200) + "/"@ + text::decimal(6400) + ")"@
                },
            }
        }),
{
    if goal is Cycle {
        let shown = DEFAULT_DPI_STAGES@.map_values(|stage: u16| text::decimal(stage as nat));
        let d = text::decimal(400);
        let e = text::decimal(800);
        let f = text::decimal(1600);
        let g = text::decimal(3200);
        let h = text::decimal(6400);
        assert(shown =~= seq![d].push(e).push(f).push(g).push(h));
        text::law_joined_parts_are_separated(seq![d], d, "/"@);
        text::law_joined_parts_are_separated(seq![d], e, "/"@);
        text::law_joined_parts_are_separated(seq![d].push(e), f, "/"@);
        text::law_joined_parts_are_separated(seq![d].push(e).push(f), g, "/"@);
        text::law_joined_parts_are_separated(seq![d].push(e).push(f).push(g), h, "/"@);
        let line = "✓ DPI: "@ + protocol::dpi_text(applied)
            + " (stages on — Cycle Up Sensitivity Stages button cycles "@;
        assert(goal.report(applied)[0] =~= line + d + "/"@ + e + "/"@ + f + "/"@ + g + "/"@ + h
            + ")"@);
    }
}

/// A failed request is reported under what it was: the table or the DPI, and which
/// slot was left untouched.
pub proof fn law_failures_name_their_slot(goal: Goal)
    ensures
        (Change::Writing { goal, step: 0 }).request_context() == "DPI stage table write failed ("@
            + "live"@ + " slot)"@,
        (Change::Writing { goal, step: 1 }).request_context() == "DPI stage table write failed ("@
            + "stored"@ + " slot)"@,
        (Change::Writing { goal, step: 2 }).request_context() == "DPI set failed ("@ + "live"@
            + " slot)"@,
        (Change::Writing { goal, step: 3 }).request_context() == "DPI set failed ("@ + "stored"@
            + " slot)"@,
        (Change::Writing { goal, step: 4 }).request_context() == "DPI query failed"@,
        Change::Reading.request_context() == "DPI query failed"@,
{
}

} // verus!
