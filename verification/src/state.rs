//! The state reducer: the authoritative in-memory reconstruction of build
//! progress.
//!
//! A [`BuildState`] is created empty for a monitoring session and mutated
//! exclusively through [`BuildState::update`], one decoded message at a time,
//! in arrival order. A started message appends a fresh running record; the
//! matching finished message closes that record exactly once; counter and
//! phase messages overwrite their fields. The whole step is specified by the
//! spec-level reducer [`spec_update`], and the laws the reducer obeys stand
//! as the proof functions at the end of this module.

use vstd::prelude::*;

use crate::derivations::{
    all_output_paths, collect_output_paths, explicit_input_paths, filter_explicit_inputs,
    guess_compiler, spec_compiler_name,
};
use crate::errors::ProtocolViolation;
use crate::messages::{BuildStatus, FinishedView, MessageView, StartedView, StructLogMessage};

verus! {

/// The reconstructed state of one build step, merged from its started and
/// finished messages.
pub struct BuildLogEntry {
    pub edge_id: usize,
    pub success: Option<bool>,
    pub command: String,
    pub compiler: String,
    pub inputs: Vec<String>,
    pub outputs: Vec<String>,
    pub output: Option<String>,
    pub start_time_millis: i64,
    pub end_time_millis: Option<i64>,
}

/// Ghost view of [`BuildLogEntry`].
#[verifier::ext_equal]
pub ghost struct EntryView {
    pub edge_id: usize,
    pub success: Option<bool>,
    pub command: Seq<char>,
    pub compiler: Seq<char>,
    pub inputs: Seq<Seq<char>>,
    pub outputs: Seq<Seq<char>>,
    pub output: Option<Seq<char>>,
    pub start_time_millis: i64,
    pub end_time_millis: Option<i64>,
}

impl View for BuildLogEntry {
    type V = EntryView;

    open spec fn view(&self) -> EntryView {
        EntryView {
            edge_id: self.edge_id,
            success: self.success,
            command: self.command@,
            compiler: self.compiler@,
            inputs: self.inputs.deep_view(),
            outputs: self.outputs.deep_view(),
            output: self.output.deep_view(),
            start_time_millis: self.start_time_millis,
            end_time_millis: self.end_time_millis,
        }
    }
}

impl DeepView for BuildLogEntry {
    type V = EntryView;

    open spec fn deep_view(&self) -> EntryView {
        self.view()
    }
}

/// Process-wide state of one monitored run: the insertion-ordered log of
/// records, the producer's estimate of total work, and the overall phase.
pub struct BuildState {
    pub log_entries: Vec<BuildLogEntry>,
    pub total_edges: usize,
    pub build_status: BuildStatus,
}

/// Ghost view of [`BuildState`].
#[verifier::ext_equal]
pub ghost struct StateView {
    pub entries: Seq<EntryView>,
    pub total_edges: usize,
    pub build_status: BuildStatus,
}

impl View for BuildState {
    type V = StateView;

    open spec fn view(&self) -> StateView {
        StateView {
            entries: self.log_entries.deep_view(),
            total_edges: self.total_edges,
            build_status: self.build_status,
        }
    }
}

/// Is `e` an open (still running) record for the edge `id`?
pub open spec fn running_with_id(e: EntryView, id: usize) -> bool {
    e.edge_id == id && e.success is None
}

/// Index of the first running record for `id`, if any.
pub open spec fn find_running(entries: Seq<EntryView>, id: usize) -> Option<int>
    decreases entries.len(),
{
    if entries.len() == 0 {
        None
    } else if running_with_id(entries.first(), id) {
        Some(0int)
    } else {
        match find_running(entries.drop_first(), id) {
            None => None,
            Some(i) => Some(i + 1),
        }
    }
}

/// Some record for `id` is currently running.
pub open spec fn has_running(entries: Seq<EntryView>, id: usize) -> bool {
    exists|i: int| 0 <= i < entries.len() && running_with_id(entries[i], id)
}

/// `find_running` answers exactly: the index it returns is the first running
/// record for `id`, and it returns one precisely when such a record exists.
pub proof fn lemma_find_running_spec(entries: Seq<EntryView>, id: usize)
    ensures
        match find_running(entries, id) {
            Some(i) => 0 <= i < entries.len() && running_with_id(entries[i], id) && (forall|
                j: int,
            |
                0 <= j < i ==> !running_with_id(entries[j], id)),
            None => forall|j: int| 0 <= j < entries.len() ==> !running_with_id(entries[j], id),
        },
        find_running(entries, id) is Some <==> has_running(entries, id),
    decreases entries.len(),
{
    if entries.len() == 0 {
    } else if running_with_id(entries.first(), id) {
    } else {
        lemma_find_running_spec(entries.drop_first(), id);
        match find_running(entries.drop_first(), id) {
            None => {
                assert forall|j: int| 0 <= j < entries.len() implies !running_with_id(
                    entries[j],
                    id,
                ) by {
                    if j > 0 {
                        assert(entries.drop_first()[j - 1] == entries[j]);
                    }
                }
            },
            Some(i) => {
                assert(entries.drop_first()[i] == entries[i + 1]);
                assert forall|j: int| 0 <= j < i + 1 implies !running_with_id(
                    entries[j],
                    id,
                ) by {
                    if j > 0 {
                        assert(entries.drop_first()[j - 1] == entries[j]);
                    }
                }
                assert(has_running(entries, id));
            },
        }
    }
}

/// The record a started message creates: a running record carrying the raw
/// command together with the three derived display fields.
pub open spec fn started_entry(s: StartedView) -> EntryView {
    EntryView {
        edge_id: s.edge_id,
        success: None,
        command: s.command,
        compiler: spec_compiler_name(s.command),
        inputs: explicit_input_paths(s.inputs),
        outputs: all_output_paths(s.outputs),
        output: None,
        start_time_millis: s.start_time_millis,
        end_time_millis: None,
    }
}

/// The record after its finished message has been merged in: outcome,
/// captured output and end time become present together, all else is kept.
pub open spec fn finished_entry(e: EntryView, f: FinishedView) -> EntryView {
    EntryView {
        success: Some(f.success),
        output: Some(f.output),
        end_time_millis: Some(f.end_time_millis),
        ..e
    }
}

/// One reducer step. A started message appends a fresh running record unless
/// its id is already running; a finished message closes the unique running
/// record of its id if there is one; the counter and phase messages overwrite
/// their field unconditionally. The two refused cases leave the state exactly
/// as it was.
pub open spec fn spec_update(s: StateView, m: MessageView) -> Result<
    StateView,
    ProtocolViolation,
> {
    match m {
        MessageView::BuildEdgeStarted(sv) => {
            if has_running(s.entries, sv.edge_id) {
                Err(ProtocolViolation::DuplicateStart { edge_id: sv.edge_id })
            } else {
                Ok(StateView { entries: s.entries.push(started_entry(sv)), ..s })
            }
        },
        MessageView::BuildEdgeFinished(fv) => {
            match find_running(s.entries, fv.edge_id) {
                None => Err(ProtocolViolation::UnmatchedFinish { edge_id: fv.edge_id }),
                Some(i) => Ok(
                    StateView {
                        entries: s.entries.update(i, finished_entry(s.entries[i], fv)),
                        ..s
                    },
                ),
            }
        },
        MessageView::TotalEdges { total } => Ok(StateView { total_edges: total, ..s }),
        MessageView::BuildStatus { status } => Ok(StateView { build_status: status, ..s }),
    }
}

/// Tri-state consistency of one record: outcome, end time and captured
/// output are all present or all absent.
pub open spec fn entry_consistent(e: EntryView) -> bool {
    (e.success is Some <==> e.end_time_millis is Some) && (e.success is Some
        <==> e.output is Some)
}

/// Well-formedness of the whole state: every record is tri-state consistent,
/// and an id identifies at most one running record.
pub open spec fn state_wf(s: StateView) -> bool {
    (forall|i: int| 0 <= i < s.entries.len() ==> entry_consistent(#[trigger] s.entries[i]))
        && (forall|i: int, j: int|
        0 <= i < j < s.entries.len() && (#[trigger] s.entries[i]).success is None && (
        #[trigger] s.entries[j]).success is None ==> s.entries[i].edge_id
            != s.entries[j].edge_id)
}

/// Finds the first running record for `id` in the log, as the spec-level
/// `find_running` names it.
fn find_running_index(entries: &Vec<BuildLogEntry>, id: usize) -> (r: Option<usize>)
    ensures
        match r {
            Some(k) => find_running(entries.deep_view(), id) == Some(k as int),
            None => find_running(entries.deep_view(), id) is None,
        },
        r is Some <==> has_running(entries.deep_view(), id),
{
    let ghost dv = entries.deep_view();
    let n = entries.len();
    proof {
        assert(dv.len() == n);
        lemma_find_running_spec(dv, id);
    }
    let mut idx: usize = 0;
    while idx < n
        invariant
            0 <= idx <= n,
            n == entries.len(),
            dv == entries.deep_view(),
            forall|k: int| 0 <= k < idx ==> !running_with_id(dv[k], id),
        decreases n - idx,
    {
        let matches_id = entries[idx].edge_id == id;
        let open_record = entries[idx].success.is_none();
        if matches_id && open_record {
            proof {
                assert(dv[idx as int] == entries[idx as int]@);
                assert(running_with_id(dv[idx as int], id));
                lemma_find_running_spec(dv, id);
            }
            return Some(idx);
        }
        proof {
            assert(dv[idx as int] == entries[idx as int]@);
        }
        idx += 1;
    }
    proof {
        lemma_find_running_spec(dv, id);
    }
    None
}

impl BuildState {
    /// Every record is tri-state consistent and no id has two running
    /// records: the shape `new` establishes and `update` preserves.
    pub open spec fn wf(self) -> bool {
        state_wf(self@)
    }

    /// Fresh, empty state for a new monitoring session: no records, no
    /// estimate of total work, build not started.
    pub fn new() -> (r: BuildState)
        ensures
            r@ == (StateView {
                entries: Seq::empty(),
                total_edges: 0,
                build_status: BuildStatus::NotStarted,
            }),
            r.wf(),
    {
        let r = BuildState {
            log_entries: Vec::new(),
            total_edges: 0,
            build_status: BuildStatus::NotStarted,
        };
        proof {
            assert(r@ =~= (StateView {
                entries: Seq::empty(),
                total_edges: 0,
                build_status: BuildStatus::NotStarted,
            }));
        }
        r
    }

    /// Apply one decoded message, in arrival order. The step is exactly
    /// [`spec_update`] on the state's view: a refused message returns the
    /// violation and leaves the state untouched, and well-formedness is
    /// preserved either way.
    pub fn update(&mut self, message: StructLogMessage) -> (r: Result<(), ProtocolViolation>)
        ensures
            match spec_update(old(self)@, message@) {
                Ok(s2) => r is Ok && final(self)@ == s2,
                Err(v) => r == Err::<(), ProtocolViolation>(v) && final(self)@ == old(self)@,
            },
            old(self).wf() ==> final(self).wf(),
    {
        proof {
            lemma_update_preserves_wf(old(self)@, message@);
        }
        match message {
            StructLogMessage::BuildEdgeStarted(started) => {
                let ghost sv = started@;
                if find_running_index(&self.log_entries, started.edge_id).is_some() {
                    return Err(ProtocolViolation::DuplicateStart { edge_id: started.edge_id });
                }
                let compiler = match guess_compiler(started.command.as_str()) {
                    Some(name) => name,
                    None => String::from_str("???"),
                };
                let entry = BuildLogEntry {
                    edge_id: started.edge_id,
                    success: None,
                    command: started.command,
                    compiler,
                    inputs: filter_explicit_inputs(started.inputs),
                    outputs: collect_output_paths(started.outputs),
                    output: None,
                    start_time_millis: started.start_time_millis,
                    end_time_millis: None,
                };
                proof {
                    assert(entry@ =~= started_entry(sv));
                }
                let ghost pre = self.log_entries.deep_view();
                self.log_entries.push(entry);
                proof {
                    assert(self.log_entries.deep_view() =~= pre.push(started_entry(sv)));
                    assert(final(self)@ =~= (StateView {
                        entries: old(self)@.entries.push(started_entry(sv)),
                        ..old(self)@
                    }));
                }
                Ok(())
            },
            StructLogMessage::BuildEdgeFinished(finished) => {
                let ghost fv = finished@;
                match find_running_index(&self.log_entries, finished.edge_id) {
                    None => Err(
                        ProtocolViolation::UnmatchedFinish { edge_id: finished.edge_id },
                    ),
                    Some(i) => {
                        let ghost pre = self.log_entries.deep_view();
                        proof {
                            lemma_find_running_spec(pre, finished.edge_id);
                        }
                        let mut entry = self.log_entries.remove(i);
                        entry.success = Some(finished.success);
                        entry.output = Some(finished.output);
                        entry.end_time_millis = Some(finished.end_time_millis);
                        proof {
                            assert(entry@ =~= finished_entry(pre[i as int], fv));
                        }
                        self.log_entries.insert(i, entry);
                        proof {
                            assert(self.log_entries.deep_view() =~= pre.update(
                                i as int,
                                finished_entry(pre[i as int], fv),
                            ));
                            assert(final(self)@ =~= (StateView {
                                entries: old(self)@.entries.update(
                                    i as int,
                                    finished_entry(old(self)@.entries[i as int], fv),
                                ),
                                ..old(self)@
                            }));
                        }
                        Ok(())
                    },
                }
            },
            StructLogMessage::TotalEdges { total } => {
                self.total_edges = total;
                proof {
                    assert(final(self)@ =~= (StateView { total_edges: total, ..old(self)@ }));
                }
                Ok(())
            },
            StructLogMessage::BuildStatus { status } => {
                self.build_status = status;
                proof {
                    assert(final(self)@ =~= (StateView { build_status: status, ..old(self)@ }));
                }
                Ok(())
            },
        }
    }

    /// The consumer's drain step: apply every message, in the order
    /// received. The first refused message stops the run and is returned;
    /// everything applied before it remains — the state is exactly the
    /// last-known-consistent one, and existing records survive untouched but
    /// for their single finish transition.
    #[verifier::loop_isolation(false)]
    pub fn apply_all(&mut self, messages: Vec<StructLogMessage>) -> (r: Result<
        (),
        ProtocolViolation,
    >)
        ensures
            final(self)@ == spec_apply_state(old(self)@, messages.deep_view()),
            r == spec_apply_result(old(self)@, messages.deep_view()),
            entries_preserved(old(self)@.entries, final(self)@.entries),
            old(self).wf() ==> final(self).wf(),
    {
        let ghost msgs0 = messages.deep_view();
        proof {
            lemma_apply_preserves_records(old(self)@, msgs0);
            lemma_apply_preserves_wf(old(self)@, msgs0);
        }
        let mut rest = messages;
        while rest.len() > 0
            invariant
                spec_apply_state(old(self)@, msgs0) == spec_apply_state(
                    self@,
                    rest.deep_view(),
                ),
                spec_apply_result(old(self)@, msgs0) == spec_apply_result(
                    self@,
                    rest.deep_view(),
                ),
            decreases rest.len(),
        {
            let ghost pre = self@;
            let ghost rest_pre = rest.deep_view();
            let m = rest.remove(0);
            proof {
                assert(rest.deep_view() =~= rest_pre.drop_first());
                assert(m@ == rest_pre.first());
            }
            match self.update(m) {
                Ok(()) => {},
                Err(v) => {
                    proof {
                        assert(rest_pre.len() > 0);
                        assert(spec_update(pre, rest_pre.first()) == Err::<
                            StateView,
                            ProtocolViolation,
                        >(v));
                        assert(spec_apply_state(pre, rest_pre) == pre);
                        assert(spec_apply_result(pre, rest_pre) == Err::<(), ProtocolViolation>(
                            v,
                        ));
                    }
                    return Err(v);
                },
            }
        }
        proof {
            assert(rest.deep_view() =~= Seq::<MessageView>::empty());
        }
        Ok(())
    }

    /// Navigation primitive for an external input handler: move the
    /// selection by `offset` relative to `current`, clamped to the log's
    /// valid indices; no selection while the log is empty. An absent
    /// `current` counts as the first entry.
    pub fn select_relative(&self, current: Option<usize>, offset: isize) -> (r: Option<usize>)
        ensures
            r == spec_select_relative(self@.entries.len(), current, offset),
    {
        let len = self.log_entries.len();
        if len == 0 {
            return None;
        }
        let base: usize = match current {
            Some(c) => c,
            None => 0,
        };
        let target: usize = if offset >= 0 {
            let off = offset as usize;
            if base > usize::MAX - off {
                usize::MAX
            } else {
                base + off
            }
        } else {
            let mag: usize = if offset == isize::MIN {
                (isize::MAX as usize) + 1
            } else {
                (-offset) as usize
            };
            if base < mag {
                0
            } else {
                base - mag
            }
        };
        let clamped = if target > len - 1 {
            len - 1
        } else {
            target
        };
        Some(clamped)
    }
}

/// The selection index a relative navigation request lands on: the target
/// `current + offset` pulled into the valid range `[0, len - 1]`, or nothing
/// while the log is empty. An absent `current` counts as index 0.
pub open spec fn spec_select_relative(len: nat, current: Option<usize>, offset: isize) -> Option<
    usize,
> {
    if len == 0 {
        None
    } else {
        let base = (match current {
            Some(c) => c,
            None => 0usize,
        }) as int;
        let target = base + offset;
        if target < 0 {
            Some(0usize)
        } else if target > len - 1 {
            Some((len - 1) as usize)
        } else {
            Some(target as usize)
        }
    }
}

/// State after a whole message sequence: each message applied in order, the
/// first refused message (if any) stopping the run with everything before it
/// still applied — the last-known-consistent state.
pub open spec fn spec_apply_state(s: StateView, msgs: Seq<MessageView>) -> StateView
    decreases msgs.len(),
{
    if msgs.len() == 0 {
        s
    } else {
        match spec_update(s, msgs.first()) {
            Ok(s2) => spec_apply_state(s2, msgs.drop_first()),
            Err(_) => s,
        }
    }
}

/// Outcome of a whole message sequence: the first violation, if any message
/// is refused.
pub open spec fn spec_apply_result(s: StateView, msgs: Seq<MessageView>) -> Result<
    (),
    ProtocolViolation,
>
    decreases msgs.len(),
{
    if msgs.len() == 0 {
        Ok(())
    } else {
        match spec_update(s, msgs.first()) {
            Ok(s2) => spec_apply_result(s2, msgs.drop_first()),
            Err(v) => Err(v),
        }
    }
}

/// The creation-time fields of a record, none of which any reducer step may
/// change once the record exists.
pub open spec fn record_frozen(a: EntryView, b: EntryView) -> bool {
    b.edge_id == a.edge_id && b.command == a.command && b.compiler == a.compiler && b.inputs
        == a.inputs && b.outputs == a.outputs && b.start_time_millis == a.start_time_millis
}

/// Existing records survive: the log only grows, creation-time fields never
/// change, and a record changes at all only by the one transition from
/// running to finished — a finished record never changes again, and a record
/// still running was not touched.
pub open spec fn entries_preserved(a: Seq<EntryView>, b: Seq<EntryView>) -> bool {
    a.len() <= b.len() && (forall|i: int|
        0 <= i < a.len() ==> record_frozen(#[trigger] a[i], b[i])) && (forall|i: int|
        0 <= i < a.len() && (#[trigger] a[i]).success is Some ==> b[i] == a[i]) && (forall|
        i: int,
    |
        0 <= i < a.len() && (#[trigger] b[i]).success is None ==> b[i] == a[i])
}

/// `entries_preserved` chains across successive states.
pub proof fn lemma_entries_preserved_trans(
    a: Seq<EntryView>,
    b: Seq<EntryView>,
    c: Seq<EntryView>,
)
    requires
        entries_preserved(a, b),
        entries_preserved(b, c),
    ensures
        entries_preserved(a, c),
{
    assert forall|i: int| 0 <= i < a.len() implies record_frozen(#[trigger] a[i], c[i]) by {
        assert(record_frozen(a[i], b[i]));
        assert(record_frozen(b[i], c[i]));
    }
    assert forall|i: int| 0 <= i < a.len() && (#[trigger] a[i]).success is Some implies c[i]
        == a[i] by {
        assert(b[i] == a[i]);
    }
    assert forall|i: int| 0 <= i < a.len() && (#[trigger] c[i]).success is None implies c[i]
        == a[i] by {
        assert(c[i] == b[i]);
    }
}

/// Law: one reducer step never removes or reorders a record and never
/// changes a record's creation-time fields; the only change it ever makes to
/// an existing record is the single transition from running to finished.
pub proof fn lemma_update_preserves_records(s: StateView, m: MessageView)
    ensures
        match spec_update(s, m) {
            Ok(s2) => entries_preserved(s.entries, s2.entries),
            Err(_) => true,
        },
{
    match m {
        MessageView::BuildEdgeFinished(fv) => {
            lemma_find_running_spec(s.entries, fv.edge_id);
        },
        _ => {},
    }
}

/// Law: over any message sequence, the log never shrinks, no record's
/// creation-time fields change, and each record finishes at most once.
pub proof fn lemma_apply_preserves_records(s: StateView, msgs: Seq<MessageView>)
    ensures
        entries_preserved(s.entries, spec_apply_state(s, msgs).entries),
    decreases msgs.len(),
{
    if msgs.len() > 0 {
        match spec_update(s, msgs.first()) {
            Ok(s2) => {
                lemma_update_preserves_records(s, msgs.first());
                lemma_apply_preserves_records(s2, msgs.drop_first());
                lemma_entries_preserved_trans(
                    s.entries,
                    s2.entries,
                    spec_apply_state(s2, msgs.drop_first()).entries,
                );
            },
            Err(_) => {},
        }
    }
}

/// Law: any message sequence applied to a well-formed state leaves it well
/// formed.
pub proof fn lemma_apply_preserves_wf(s: StateView, msgs: Seq<MessageView>)
    ensures
        state_wf(s) ==> state_wf(spec_apply_state(s, msgs)),
    decreases msgs.len(),
{
    if msgs.len() > 0 {
        match spec_update(s, msgs.first()) {
            Ok(s2) => {
                lemma_update_preserves_wf(s, msgs.first());
                lemma_apply_preserves_wf(s2, msgs.drop_first());
            },
            Err(_) => {},
        }
    }
}

/// Law: a finished message whose id has no running record is refused with
/// the unmatched-finish violation, and (by `update`'s contract) is not
/// applied.
pub proof fn lemma_unmatched_finish_rejected(s: StateView, fv: FinishedView)
    requires
        !has_running(s.entries, fv.edge_id),
    ensures
        spec_update(s, MessageView::BuildEdgeFinished(fv)) == Err::<StateView, ProtocolViolation>(
            ProtocolViolation::UnmatchedFinish { edge_id: fv.edge_id },
        ),
{
    lemma_find_running_spec(s.entries, fv.edge_id);
}

/// Law: a started message whose id already has a running record is refused
/// with the duplicate-start violation, and (by `update`'s contract) is not
/// applied.
pub proof fn lemma_duplicate_start_rejected(s: StateView, sv: StartedView)
    requires
        has_running(s.entries, sv.edge_id),
    ensures
        spec_update(s, MessageView::BuildEdgeStarted(sv)) == Err::<StateView, ProtocolViolation>(
            ProtocolViolation::DuplicateStart { edge_id: sv.edge_id },
        ),
{
}

/// Law: one reducer step keeps the state well formed. A fresh record is
/// consistent and running for an id that was not running before; a finish
/// closes the one running record of its id; the other messages leave the log
/// alone.
pub proof fn lemma_update_preserves_wf(s: StateView, m: MessageView)
    ensures
        state_wf(s) ==> match spec_update(s, m) {
            Ok(s2) => state_wf(s2),
            Err(_) => true,
        },
{
    if state_wf(s) {
        match m {
            MessageView::BuildEdgeStarted(sv) => {
                if !has_running(s.entries, sv.edge_id) {
                    let s2 = spec_update(s, m)->Ok_0;
                    assert forall|i: int, j: int|
                        0 <= i < j < s2.entries.len() && (#[trigger] s2.entries[i]).success
                            is None && (#[trigger] s2.entries[j]).success
                            is None implies s2.entries[i].edge_id != s2.entries[j].edge_id by {
                        if j == s.entries.len() {
                            if s2.entries[i].edge_id == sv.edge_id && s2.entries[i].success
                                is None {
                                assert(running_with_id(s.entries[i], sv.edge_id));
                                assert(has_running(s.entries, sv.edge_id));
                            }
                        }
                    }
                }
            },
            MessageView::BuildEdgeFinished(fv) => {
                lemma_find_running_spec(s.entries, fv.edge_id);
            },
            MessageView::TotalEdges { .. } => {},
            MessageView::BuildStatus { .. } => {},
        }
    }
}

} // verus!
