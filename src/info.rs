use vstd::prelude::*;
use vstd::string::StringExecFns;
use fuzzy_matcher::FuzzyMatcher;
use crate::model::{CompiledModel, Intention, Operation};
use crate::path::{SPPath, join_segments, path_lt};
use crate::plan::{PlanStep, cursor_of, plan_cursor, plan_of, plan_steps, project_plan, step_class};
use crate::store::{StateInfo, StateStore, entries_map, sorted_by_path};
use crate::value::{SPValue, ValueModel, nat_text, nat_to_string, render};

verus! {

/// The side of the grid of buffers, which holds side * side cells.
pub const NUM_BUFFERS_SIDE: usize = 2;

/// The number of cells of the grid of buffers.
pub const NUM_BUFFERS: usize = NUM_BUFFERS_SIDE * NUM_BUFFERS_SIDE;

/// Whether two characters are equal when ASCII letters are compared
/// without regard to case, as `char::eq_ignore_ascii_case` compares them.
pub open spec fn same_ignoring_ascii_case(a: char, b: char) -> bool {
    ||| a == b
    ||| ('A' <= a <= 'Z' && b as int == a as int + 32)
    ||| ('A' <= b <= 'Z' && a as int == b as int + 32)
}

/// Whether the pattern is a subsequence of the choice, characters compared
/// with ASCII case ignored; an empty pattern always is. Each pattern
/// character takes the first fitting character of the choice.
pub open spec fn skim_matches(choice: Seq<char>, pattern: Seq<char>) -> bool
    decreases choice.len(),
{
    if pattern.len() == 0 {
        true
    } else if choice.len() == 0 {
        false
    } else if same_ignoring_ascii_case(choice[0], pattern[0]) {
        skim_matches(choice.drop_first(), pattern.drop_first())
    } else {
        skim_matches(choice.drop_first(), pattern)
    }
}

/// Relies on `fuzzy_matcher::skim::SkimMatcherV2::fuzzy_match` with case
/// ignored: it finds a match exactly where its first pass
/// (`fuzzy_matcher::util::cheap_matches`) finds the pattern as a subsequence
/// of the choice, characters compared with `eq_ignore_ascii_case`, and an
/// empty pattern always matches.
#[verifier::external_body]
fn fuzzy_match(choice: &str, pattern: &str) -> (r: bool)
    ensures
        r == skim_matches(choice@, pattern@),
{
    let matcher = fuzzy_matcher::skim::SkimMatcherV2::default().ignore_case();
    matcher.fuzzy_match(choice, pattern).is_some()
}

/// What is shown for the value of a path: its text, or a marker where the
/// path was never observed.
pub open spec fn status_text(v: Option<ValueModel>) -> Seq<char> {
    match v {
        Some(x) => render(x),
        None => seq!['[', 'n', 'o', ' ', 's', 't', 'a', 't', 'e', ']'],
    }
}

/// What is shown for a goal: its text, or a marker where there is none.
pub open spec fn goal_text(v: Option<ValueModel>) -> Seq<char> {
    match v {
        Some(x) => render(x),
        None => seq!['n', 'o', ' ', 'g', 'o', 'a', 'l'],
    }
}

/// The value of a path in a snapshot, if it holds one.
pub open spec fn lookup(s: Map<Seq<Seq<char>>, ValueModel>, p: Seq<Seq<char>>) -> Option<ValueModel> {
    if s.contains_key(p) {
        Some(s[p])
    } else {
        None
    }
}

/// Where the runner publishes the goal of its transition plan.
pub open spec fn transition_goal_path() -> Seq<Seq<char>> {
    seq!["runner"@, "transition_goal"@]
}

/// Where the runner publishes its transition plan.
pub open spec fn transition_plan_path() -> Seq<Seq<char>> {
    seq!["runner"@, "transition_plan"@]
}

/// Where the runner publishes the cursor of its transition plan.
pub open spec fn plan_cursor_path() -> Seq<Seq<char>> {
    seq!["runner"@, "plans"@, "0"@]
}

/// Where the runner publishes the goal of its operation plan.
pub open spec fn operation_goal_path() -> Seq<Seq<char>> {
    seq!["runner"@, "operation_goal"@]
}

/// Where the runner publishes its operation plan.
pub open spec fn operation_plan_path() -> Seq<Seq<char>> {
    seq!["runner"@, "operation_plan"@]
}

/// An operation with the buttons that act on it.
pub struct OperationInfo {
    pub op: Operation,
}

impl OperationInfo {
    /// The commands offered for an operation: force it to start, or reset it.
    pub fn commands(&self) -> (r: Vec<PathCommand>)
        ensures
            r@.len() == 2,
            is_command(r@[0], "Force start"@, self.op.path@, "e"@),
            is_command(r@[1], "Reset"@, self.op.path@, "i"@),
    {
        let mut r: Vec<PathCommand> = Vec::new();
        r.push(command_of("Force start", &self.op.path, "e"));
        r.push(command_of("Reset", &self.op.path, "i"));
        r
    }
}

/// An intention with the buttons that act on it.
pub struct IntentionInfo {
    pub i: Intention,
}

impl IntentionInfo {
    /// The commands offered for an intention: stop it, force it to start, or
    /// reset it.
    pub fn commands(&self) -> (r: Vec<PathCommand>)
        ensures
            r@.len() == 3,
            is_command(r@[0], "Stop"@, self.i.path@, "X"@),
            is_command(r@[1], "Force start"@, self.i.path@, "e"@),
            is_command(r@[2], "Reset"@, self.i.path@, "i"@),
    {
        let mut r: Vec<PathCommand> = Vec::new();
        r.push(command_of("Stop", &self.i.path, "X"));
        r.push(command_of("Force start", &self.i.path, "e"));
        r.push(command_of("Reset", &self.i.path, "i"));
        r
    }
}

/// Which of the two grids of buffers a cell belongs to: the state that the
/// system is told it is in, or the goal of an order.
#[derive(Debug, Clone, Copy, PartialEq, Eq)]
pub enum BufferLocationType {
    Estimated,
    Goal,
}

/// The paths whose text the filter matches.
pub open spec fn filtered_paths(filter: Seq<char>) -> Set<Seq<Seq<char>>> {
    Set::new(|p: Seq<Seq<char>>| skim_matches(join_segments(p), filter))
}

/// A command that a button offers: its label, and the path that it sets to
/// the value.
pub struct PathCommand {
    pub label: String,
    pub path: SPPath,
    pub value: SPValue,
}

/// Whether a command has the given label, path and text value.
pub open spec fn is_command(c: PathCommand, label: Seq<char>, path: Seq<Seq<char>>, value: Seq<char>) -> bool {
    &&& c.label@ == label
    &&& c.path@ == path
    &&& c.value@ == ValueModel::String(value)
}

fn command_of(label: &str, path: &SPPath, value: &str) -> (r: PathCommand)
    ensures
        is_command(r, label@, path@, value@),
{
    PathCommand {
        label: String::from_str(label),
        path: path.clone(),
        value: SPValue::String(String::from_str(value)),
    }
}

/// The label of a cell of a grid: its column, its row, and what it holds.
pub open spec fn cell_label(i: int, value: bool) -> Seq<char> {
    nat_text((i % NUM_BUFFERS_SIDE as int) as nat) + ","@ + nat_text((i / NUM_BUFFERS_SIDE as int) as nat)
        + ": "@ + if value {
        "cylinder"@
    } else {
        "empty"@
    }
}

/// For each cell of a grid, in cell order, its label and the value that
/// pressing it sets.
pub fn grid_cells(grid: &Vec<BufferLocation>) -> (r: Vec<(String, bool)>)
    ensures
        r@.len() == grid@.len(),
        forall|i: int|
            0 <= i < r@.len() ==> (#[trigger] r@[i]).0@ == cell_label(i, grid@[i].value) && r@[i].1
                == !grid@[i].value,
{
    let mut r: Vec<(String, bool)> = Vec::new();
    let mut i: usize = 0;
    while i < grid.len()
        invariant
            i <= grid@.len(),
            r@.len() == i,
            forall|j: int|
                0 <= j < i ==> (#[trigger] r@[j]).0@ == cell_label(j, grid@[j].value) && r@[j].1
                    == !grid@[j].value,
        decreases grid@.len() - i,
    {
        let x = nat_to_string((i % NUM_BUFFERS_SIDE) as u64);
        let y = nat_to_string((i / NUM_BUFFERS_SIDE) as u64);
        let mut label = x;
        label.append(",");
        label.append(y.as_str());
        label.append(": ");
        let value = grid[i].value;
        if value {
            label.append("cylinder");
        } else {
            label.append("empty");
        }
        assert(label@ =~= cell_label(i as int, value));
        r.push((label, !value));
        i = i + 1;
    }
    r
}

/// One cell of the grid of buffers: whether a cylinder is in it.
#[derive(Debug, Clone, Copy, PartialEq, Eq)]
pub struct BufferLocation {
    pub value: bool,
}

/// A loaded model and the state observed for it.
pub struct SPModelInfo {
    pub compiled_model: CompiledModel,
    pub state: StateStore,
    pub operations: Vec<OperationInfo>,
    pub intentions: Vec<IntentionInfo>,
    pub buffers_locations: Vec<BufferLocation>,
    pub estimated_locations: Vec<BufferLocation>,
}

fn empty_grid() -> (r: Vec<BufferLocation>)
    ensures
        r@.len() == NUM_BUFFERS,
        forall|i: int| 0 <= i < r@.len() ==> !(#[trigger] r@[i]).value,
{
    let mut r: Vec<BufferLocation> = Vec::new();
    let mut i: usize = 0;
    while i < NUM_BUFFERS
        invariant
            i <= NUM_BUFFERS,
            r@.len() == i,
            forall|j: int| 0 <= j < r@.len() ==> !(#[trigger] r@[j]).value,
        decreases NUM_BUFFERS - i,
    {
        r.push(BufferLocation { value: false });
        i = i + 1;
    }
    r
}

/// The text shown for the value of a path.
pub fn status_string(v: Option<&SPValue>) -> (r: String)
    ensures
        r@ == status_text(
            match v {
                Some(x) => Some(x@),
                None => None,
            },
        ),
{
    match v {
        Some(x) => x.to_string(),
        None => {
            proof {
                reveal_strlit("[no state]");
            }
            String::from_str("[no state]")
        },
    }
}

/// The text shown for a goal.
pub fn goal_string(v: Option<&SPValue>) -> (r: String)
    ensures
        r@ == goal_text(
            match v {
                Some(x) => Some(x@),
                None => None,
            },
        ),
{
    match v {
        Some(x) => x.to_string(),
        None => {
            proof {
                reveal_strlit("no goal");
            }
            String::from_str("no goal")
        },
    }
}

/// A path of the two segments given.
fn path2(a: &str, b: &str) -> (r: SPPath)
    ensures
        r@ == seq![a@, b@],
{
    let mut v: Vec<String> = Vec::new();
    v.push(String::from_str(a));
    v.push(String::from_str(b));
    let r = SPPath { path: v };
    assert(r@ =~= seq![a@, b@]);
    r
}

/// A path of the three segments given.
fn path3(a: &str, b: &str, c: &str) -> (r: SPPath)
    ensures
        r@ == seq![a@, b@, c@],
{
    let mut v: Vec<String> = Vec::new();
    v.push(String::from_str(a));
    v.push(String::from_str(b));
    v.push(String::from_str(c));
    let r = SPPath { path: v };
    assert(r@ =~= seq![a@, b@, c@]);
    r
}

impl SPModelInfo {
    /// The model, with no state observed yet and empty grids.
    pub fn from(compiled_model: CompiledModel) -> (r: SPModelInfo)
        ensures
            r.state.wf(),
            r.state@ == Map::<Seq<Seq<char>>, (ValueModel, Seq<char>)>::empty(),
            r.operations@.len() == compiled_model.operations@.len(),
            forall|i: int|
                0 <= i < r.operations@.len() ==> (#[trigger] r.operations@[i]).op.path@
                    == compiled_model.operations@[i].path@,
            r.intentions@.len() == compiled_model.intentions@.len(),
            forall|i: int|
                0 <= i < r.intentions@.len() ==> (#[trigger] r.intentions@[i]).i.path@
                    == compiled_model.intentions@[i].path@,
            r.compiled_model == compiled_model,
            r.buffers_locations@.len() == NUM_BUFFERS,
            r.estimated_locations@.len() == NUM_BUFFERS,
            forall|i: int| 0 <= i < NUM_BUFFERS ==> !(#[trigger] r.buffers_locations@[i]).value,
            forall|i: int| 0 <= i < NUM_BUFFERS ==> !(#[trigger] r.estimated_locations@[i]).value,
    {
        let mut operations: Vec<OperationInfo> = Vec::new();
        let mut i: usize = 0;
        while i < compiled_model.operations.len()
            invariant
                i <= compiled_model.operations@.len(),
                operations@.len() == i,
                forall|j: int|
                    0 <= j < i ==> (#[trigger] operations@[j]).op.path@
                        == compiled_model.operations@[j].path@,
            decreases compiled_model.operations@.len() - i,
        {
            let op = Operation { path: compiled_model.operations[i].path.clone() };
            operations.push(OperationInfo { op });
            i = i + 1;
        }
        let mut intentions: Vec<IntentionInfo> = Vec::new();
        let mut i: usize = 0;
        while i < compiled_model.intentions.len()
            invariant
                i <= compiled_model.intentions@.len(),
                intentions@.len() == i,
                forall|j: int|
                    0 <= j < i ==> (#[trigger] intentions@[j]).i.path@
                        == compiled_model.intentions@[j].path@,
            decreases compiled_model.intentions@.len() - i,
        {
            let it = Intention { path: compiled_model.intentions[i].path.clone() };
            intentions.push(IntentionInfo { i: it });
            i = i + 1;
        }
        SPModelInfo {
            compiled_model,
            state: StateStore::new(),
            operations,
            intentions,
            buffers_locations: empty_grid(),
            estimated_locations: empty_grid(),
        }
    }

    /// The value of every observed path.
    pub fn get_spstate(&self) -> (r: Vec<(SPPath, SPValue)>)
        requires
            self.state.wf(),
        ensures
            crate::store::updates_map(r@) == self.state.values(),
    {
        self.state.values_list()
    }

    /// The value of a path in the store, as `lookup` gives it.
    fn lookup_value(&self, p: &SPPath) -> (r: Option<&SPValue>)
        requires
            self.state.wf(),
        ensures
            match r {
                Some(x) => Some(x@),
                None => None,
            } == lookup(self.state.values(), p@),
    {
        self.state.get(p)
    }

    /// The goal of the transition plan, and each step of the plan with its
    /// classification against the cursor and the transitions of the model.
    pub fn view_tplan(&self) -> (r: (String, Vec<PlanStep>))
        requires
            self.state.wf(),
        ensures
            r.0@ == goal_text(lookup(self.state.values(), transition_goal_path())),
            r.1@.len() == plan_of(lookup(self.state.values(), transition_plan_path())).len(),
            forall|i: int|
                0 <= i < r.1@.len() ==> (#[trigger] r.1@[i]).path@ == plan_of(
                    lookup(self.state.values(), transition_plan_path()),
                )[i] && r.1@[i].class == step_class(
                    self.compiled_model.transitions@,
                    plan_of(lookup(self.state.values(), transition_plan_path())),
                    i,
                    cursor_of(lookup(self.state.values(), plan_cursor_path())),
                    self.state.values(),
                ),
    {
        let goal = goal_string(self.lookup_value(&path2("runner", "transition_goal")));
        let steps = plan_steps(self.lookup_value(&path2("runner", "transition_plan")));
        let cursor = plan_cursor(self.lookup_value(&path3("runner", "plans", "0")));
        let projected = project_plan(&steps, cursor, &self.compiled_model.transitions, &self.state);
        (goal, projected)
    }

    /// The goal of the operation plan, and the text of each of its steps.
    pub fn view_oplan(&self) -> (r: (String, Vec<String>))
        requires
            self.state.wf(),
        ensures
            r.0@ == goal_text(lookup(self.state.values(), operation_goal_path())),
            r.1@.map_values(|s: String| s@) == plan_of(
                lookup(self.state.values(), operation_plan_path()),
            ),
    {
        let goal = goal_string(self.lookup_value(&path2("runner", "operation_goal")));
        let steps = plan_steps(self.lookup_value(&path2("runner", "operation_plan")));
        (goal, steps)
    }

    /// The entries whose path text the filter matches, in path order.
    pub fn view_state(&self, filter: &str) -> (r: Vec<StateInfo>)
        requires
            self.state.wf(),
        ensures
            sorted_by_path(r@),
            entries_map(r@) == self.state@.restrict(filtered_paths(filter@)),
    {
        let sorted = self.state.sorted_entries();
        let mut out: Vec<StateInfo> = Vec::new();
        let ghost mut picked: Seq<int> = Seq::empty();
        let mut i: usize = 0;
        assert(entries_map(sorted@.take(0)).restrict(filtered_paths(filter@)) =~= entries_map(
            out@,
        ));
        while i < sorted.len()
            invariant
                sorted_by_path(sorted@),
                i <= sorted@.len(),
                picked.len() == out@.len(),
                forall|k: int| 0 <= k < picked.len() ==> 0 <= #[trigger] picked[k] < i,
                forall|k: int|
                    0 <= k < picked.len() ==> (#[trigger] out@[k]).path@ == sorted@[picked[k]].path@,
                forall|a: int, b: int| 0 <= a < b < picked.len() ==> picked[a] < picked[b],
                entries_map(out@) == entries_map(sorted@.take(i as int)).restrict(
                    filtered_paths(filter@),
                ),
            decreases sorted@.len() - i,
        {
            let text = sorted[i].path.to_string();
            let keep = fuzzy_match(text.as_str(), filter);
            proof {
                assert(sorted@.take(i + 1).drop_last() =~= sorted@.take(i as int));
                assert(sorted@.take(i + 1).last() == sorted@[i as int]);
            }
            if keep {
                let ghost before = out@;
                out.push(sorted[i].clone());
                proof {
                    picked = picked.push(i as int);
                    assert(out@.drop_last() =~= before);
                    assert(entries_map(out@) =~= entries_map(sorted@.take(i + 1)).restrict(
                        filtered_paths(filter@),
                    ));
                }
            } else {
                proof {
                    assert(!filtered_paths(filter@).contains(sorted@[i as int].path@));
                    assert(entries_map(out@) =~= entries_map(sorted@.take(i + 1)).restrict(
                        filtered_paths(filter@),
                    ));
                }
            }
            i = i + 1;
        }
        proof {
            assert(sorted@.take(i as int) =~= sorted@);
            assert forall|a: int, b: int| 0 <= a < b < out@.len() implies path_lt(
                out@[a].path@,
                out@[b].path@,
            ) by {
                assert(picked[a] < picked[b]);
                assert(out@[a].path@ == sorted@[picked[a]].path@);
                assert(out@[b].path@ == sorted@[picked[b]].path@);
            }
        }
        out
    }

    /// Sets one cell of a grid; does nothing for an index outside it.
    pub fn set_buffer(&mut self, type_: BufferLocationType, idx: usize, value: bool)
        ensures
            final(self).state == old(self).state,
            final(self).compiled_model == old(self).compiled_model,
            final(self).operations == old(self).operations,
            final(self).intentions == old(self).intentions,
            type_ == BufferLocationType::Estimated ==> final(self).buffers_locations
                == old(self).buffers_locations && final(self).estimated_locations@ == if idx
                < old(self).estimated_locations@.len() {
                old(self).estimated_locations@.update(idx as int, BufferLocation { value })
            } else {
                old(self).estimated_locations@
            },
            type_ == BufferLocationType::Goal ==> final(self).estimated_locations
                == old(self).estimated_locations && final(self).buffers_locations@ == if idx
                < old(self).buffers_locations@.len() {
                old(self).buffers_locations@.update(idx as int, BufferLocation { value })
            } else {
                old(self).buffers_locations@
            },
    {
        match type_ {
            BufferLocationType::Estimated => {
                if idx < self.estimated_locations.len() {
                    self.estimated_locations.set(idx, BufferLocation { value });
                }
            },
            BufferLocationType::Goal => {
                if idx < self.buffers_locations.len() {
                    self.buffers_locations.set(idx, BufferLocation { value });
                }
            },
        }
    }

    /// For each operation, in model order, the text of its path and of its
    /// status.
    pub fn view_ops(&self) -> (r: Vec<(String, String)>)
        requires
            self.state.wf(),
        ensures
            r@.len() == self.operations@.len(),
            forall|i: int|
                0 <= i < r@.len() ==> (#[trigger] r@[i]).0@ == join_segments(
                    self.operations@[i].op.path@,
                ) && r@[i].1@ == status_text(
                    lookup(self.state.values(), self.operations@[i].op.path@),
                ),
    {
        let mut r: Vec<(String, String)> = Vec::new();
        let mut i: usize = 0;
        while i < self.operations.len()
            invariant
                self.state.wf(),
                i <= self.operations@.len(),
                r@.len() == i,
                forall|j: int|
                    0 <= j < i ==> (#[trigger] r@[j]).0@ == join_segments(
                        self.operations@[j].op.path@,
                    ) && r@[j].1@ == status_text(
                        lookup(self.state.values(), self.operations@[j].op.path@),
                    ),
            decreases self.operations@.len() - i,
        {
            let p = &self.operations[i].op.path;
            let status = status_string(self.state.get(p));
            r.push((p.to_string(), status));
            i = i + 1;
        }
        r
    }

    /// For each intention, in model order, the text of its path and of its
    /// status.
    pub fn view_ints(&self) -> (r: Vec<(String, String)>)
        requires
            self.state.wf(),
        ensures
            r@.len() == self.intentions@.len(),
            forall|i: int|
                0 <= i < r@.len() ==> (#[trigger] r@[i]).0@ == join_segments(
                    self.intentions@[i].i.path@,
                ) && r@[i].1@ == status_text(
                    lookup(self.state.values(), self.intentions@[i].i.path@),
                ),
    {
        let mut r: Vec<(String, String)> = Vec::new();
        let mut i: usize = 0;
        while i < self.intentions.len()
            invariant
                self.state.wf(),
                i <= self.intentions@.len(),
                r@.len() == i,
                forall|j: int|
                    0 <= j < i ==> (#[trigger] r@[j]).0@ == join_segments(
                        self.intentions@[j].i.path@,
                    ) && r@[j].1@ == status_text(
                        lookup(self.state.values(), self.intentions@[j].i.path@),
                    ),
            decreases self.intentions@.len() - i,
        {
            let p = &self.intentions[i].i.path;
            let status = status_string(self.state.get(p));
            r.push((p.to_string(), status));
            i = i + 1;
        }
        r
    }
}

} // verus!
